//! Windows as every backend reports them.

use vstd::prelude::*;

verus! {

/// A window in a snapshot. `F` is the number type of canvas coordinates.
#[derive(Debug)]
pub struct Win<F> {
    /// By what the backend finds the window again.
    pub key: String,
    pub app_id: String,
    pub title: String,
    /// Whether the window is minimized, transparent or at the hiding spot.
    pub hidden: bool,
    pub focused: bool,
    /// The centre of the window on the canvas, where the backend has a canvas.
    pub position: Option<(F, F)>,
}

impl<F: Copy> Clone for Win<F> {
    fn clone(&self) -> (r: Self)
        ensures
            r == *self,
    {
        Win {
            key: self.key.clone(),
            app_id: self.app_id.clone(),
            title: self.title.clone(),
            hidden: self.hidden,
            focused: self.focused,
            position: self.position,
        }
    }
}

pub struct WinView<F> {
    pub key: Seq<char>,
    pub app_id: Seq<char>,
    pub title: Seq<char>,
    pub hidden: bool,
    pub focused: bool,
    pub position: Option<(F, F)>,
}

impl<F> View for Win<F> {
    type V = WinView<F>;

    open spec fn view(&self) -> WinView<F> {
        WinView {
            key: self.key@,
            app_id: self.app_id@,
            title: self.title@,
            hidden: self.hidden,
            focused: self.focused,
            position: self.position,
        }
    }
}

/// The views of a vector of windows.
pub open spec fn win_views<F>(wins: Seq<Win<F>>) -> Seq<WinView<F>> {
    wins.map_values(|w: Win<F>| w@)
}

} // verus!

//! Sizes of windows as they are written in a configuration.

use crate::outside;
use crate::text;
use vstd::prelude::*;
use vstd::string::*;

verus! {

/// How the number of a percentage reads.
#[derive(Debug)]
pub enum Number {
    /// It is no number, for this reason.
    Invalid { reason: String },
    /// It is a number, but not one from 0 to 100.
    Outside,
    /// It is a number from 0 to 100; `bits` is its double-precision bit pattern.
    Within { bits: u64 },
}

/// The extent of a window along one side.
#[derive(Debug)]
pub enum Size {
    /// Screen pixels.
    Px(u32),
    /// A share of the view, written as a percentage such as `90%`. `number` is the reading of what
    /// `percent_number` finds in `text`.
    Percent { text: String, number: Number },
}

pub enum NumberView {
    Invalid { reason: Seq<char> },
    Outside,
    Within { bits: u64 },
}

pub enum SizeView {
    Px(u32),
    Percent { text: Seq<char>, number: NumberView },
}

impl View for Number {
    type V = NumberView;

    open spec fn view(&self) -> NumberView {
        match *self {
            Number::Invalid { reason } => NumberView::Invalid { reason: reason@ },
            Number::Outside => NumberView::Outside,
            Number::Within { bits } => NumberView::Within { bits },
        }
    }
}

impl View for Size {
    type V = SizeView;

    open spec fn view(&self) -> SizeView {
        match *self {
            Size::Px(v) => SizeView::Px(v),
            Size::Percent { text, number } => SizeView::Percent { text: text@, number: number@ },
        }
    }
}

/// What `percent_number` finds: the trimmed text in front of the percent sign.
pub open spec fn percent_part(s: Seq<char>) -> Option<Seq<char>> {
    if s.len() > 0 && s.last() == '%' {
        Some(text::trimmed(s.drop_last()))
    } else {
        None
    }
}

/// The text of the number of a percentage; `None` where no percent sign ends the text.
pub fn percent_number(s: &str) -> (r: Option<String>)
    ensures
        match r {
            Some(number) => percent_part(s@) == Some(number@),
            None => percent_part(s@) is None,
        },
{
    let len: usize = s.unicode_len();
    if len > 0 && s.get_char(len - 1) == '%' {
        let front = s.substring_char(0, len - 1);
        assert(front@ =~= s@.drop_last());
        Some(text::trim(front))
    } else {
        None
    }
}

/// A size that has been read: what remains is arithmetic on the side of the view.
#[derive(Debug, Clone, Copy, PartialEq, Eq, Structural)]
pub enum Extent {
    /// Screen pixels.
    Px(u32),
    /// Hundredths of the side of the view; the double-precision bit pattern of their number.
    Hundredths(u64),
}

/// Why a size cannot be used.
#[derive(Debug)]
pub enum SizeError {
    /// The text is no percentage; `reason` says what is wrong with its number, where it has one.
    Format { text: String, reason: Option<String> },
    /// The percentage is not one from 0 to 100.
    Range { text: String },
}

pub enum SizeFault {
    Format { text: Seq<char>, reason: Option<Seq<char>> },
    Range { text: Seq<char> },
}

impl View for SizeError {
    type V = SizeFault;

    open spec fn view(&self) -> SizeFault {
        match *self {
            SizeError::Format { text, reason } => SizeFault::Format {
                text: text@,
                reason: text::optional_text(reason),
            },
            SizeError::Range { text } => SizeFault::Range { text: text@ },
        }
    }
}

impl SizeFault {
    /// The words for the fault, where `shown` is how its text is shown.
    pub open spec fn words_with(self, shown: Seq<char>) -> Seq<char> {
        match self {
            SizeFault::Format { text, reason: None } => "百分比尺寸格式错误: "@ + shown
                + "（示例 \"90%\"）"@,
            SizeFault::Format { text, reason: Some(reason) } => "百分比尺寸格式错误: "@ + shown
                + "（示例 \"90%\"）"@ + ": "@ + reason,
            SizeFault::Range { text } => "百分比尺寸超出 0-100%: "@ + shown,
        }
    }

    /// The text at fault.
    pub open spec fn text_at_fault(self) -> Seq<char> {
        match self {
            SizeFault::Format { text, .. } => text,
            SizeFault::Range { text } => text,
        }
    }

    /// The words for the fault.
    pub open spec fn words(self) -> Seq<char> {
        self.words_with(outside::quoted(self.text_at_fault()))
    }
}

impl SizeError {
    /// What to tell the user, where `shown` is how the text at fault is shown.
    pub fn message_with(&self, shown: &str) -> (r: String)
        ensures
            r@ == self@.words_with(shown@),
    {
        match self {
            SizeError::Format { text: _, reason } => {
                let mut s = "百分比尺寸格式错误: ".to_owned();
                s.append(shown);
                s.append("（示例 \"90%\"）");
                if let Some(why) = reason {
                    s.append(": ");
                    s.append(why.as_str());
                }
                s
            },
            SizeError::Range { text: _ } => {
                let mut s = "百分比尺寸超出 0-100%: ".to_owned();
                s.append(shown);
                s
            },
        }
    }

    /// What to tell the user. The text at fault is shown in quotes.
    pub fn message(&self) -> (r: String)
        ensures
            r@ == self@.words(),
    {
        let shown = match self {
            SizeError::Format { text, reason: _ } => outside::quote(text.as_str()),
            SizeError::Range { text } => outside::quote(text.as_str()),
        };
        self.message_with(shown.as_str())
    }
}

impl SizeView {
    /// What the size amounts to, or what is wrong with it.
    pub open spec fn extent(self) -> Result<Extent, SizeFault> {
        match self {
            SizeView::Px(v) => Ok(Extent::Px(v)),
            SizeView::Percent { text, number } => if percent_part(text) is None {
                Err(SizeFault::Format { text, reason: None })
            } else {
                match number {
                    NumberView::Invalid { reason } => Err(
                        SizeFault::Format { text, reason: Some(reason) },
                    ),
                    NumberView::Outside => Err(SizeFault::Range { text }),
                    NumberView::Within { bits } => Ok(Extent::Hundredths(bits)),
                }
            },
        }
    }
}

impl Size {
    /// Turns the size into the extent from which its screen pixels are computed. Pixels stand for
    /// themselves; a percentage must end in a percent sign and have a number from 0 to 100.
    pub fn resolve_px(&self) -> (r: Result<Extent, SizeError>)
        ensures
            match r {
                Ok(extent) => self@.extent() == Ok::<Extent, SizeFault>(extent),
                Err(e) => self@.extent() == Err::<Extent, SizeFault>(e@),
            },
    {
        match self {
            Size::Px(v) => Ok(Extent::Px(*v)),
            Size::Percent { text, number } => {
                if percent_number(text.as_str()).is_none() {
                    return Err(SizeError::Format { text: text.clone(), reason: None });
                }
                match number {
                    Number::Invalid { reason } => Err(
                        SizeError::Format { text: text.clone(), reason: Some(reason.clone()) },
                    ),
                    Number::Outside => Err(SizeError::Range { text: text.clone() }),
                    Number::Within { bits } => Ok(Extent::Hundredths(*bits)),
                }
            },
        }
    }

    /// A copy of the size.
    pub fn copy(&self) -> (r: Self)
        ensures
            r@ == self@,
    {
        match self {
            Size::Px(v) => Size::Px(*v),
            Size::Percent { text, number } => Size::Percent {
                text: text.clone(),
                number: match number {
                    Number::Invalid { reason } => Number::Invalid { reason: reason.clone() },
                    Number::Outside => Number::Outside,
                    Number::Within { bits } => Number::Within { bits: *bits },
                },
            },
        }
    }
}

/// The view of a size that may be missing.
pub open spec fn optional_size(s: Option<Size>) -> Option<SizeView> {
    match s {
        Some(t) => Some(t@),
        None => None,
    }
}

/// A copy of a size that may be missing.
pub fn copy_size(s: &Option<Size>) -> (r: Option<Size>)
    ensures
        optional_size(r) == optional_size(*s),
{
    match s {
        Some(size) => Some(size.copy()),
        None => None,
    }
}

} // verus!

//! What can be wrong with a configuration.

use crate::size::SizeError;
use crate::size::SizeFault;
use vstd::prelude::*;
use vstd::string::*;

verus! {

/// Why a configuration, or a request for one of its pads, is refused.
#[derive(Debug)]
pub enum ConfigError {
    /// There is no pad.
    NoPads,
    /// A pad has no pattern for application ids.
    NoAppId { pad: String },
    /// The pattern for application ids does not compile.
    BadAppId { pad: String, reason: String },
    /// The pattern for titles does not compile.
    BadTitle { pad: String, reason: String },
    /// A width or height cannot be used.
    BadSize(SizeError),
    /// No pad has this name.
    UnknownPad { pad: String, known: String },
    /// No name was given, and there is not exactly one pad.
    PadNotGiven { known: String },
    /// Nothing says where the configuration is.
    NoHome,
}

pub enum ConfigFault {
    NoPads,
    NoAppId { pad: Seq<char> },
    BadAppId { pad: Seq<char>, reason: Seq<char> },
    BadTitle { pad: Seq<char>, reason: Seq<char> },
    BadSize(SizeFault),
    UnknownPad { pad: Seq<char>, known: Seq<char> },
    PadNotGiven { known: Seq<char> },
    NoHome,
}

impl View for ConfigError {
    type V = ConfigFault;

    open spec fn view(&self) -> ConfigFault {
        match *self {
            ConfigError::NoPads => ConfigFault::NoPads,
            ConfigError::NoAppId { pad } => ConfigFault::NoAppId { pad: pad@ },
            ConfigError::BadAppId { pad, reason } => ConfigFault::BadAppId {
                pad: pad@,
                reason: reason@,
            },
            ConfigError::BadTitle { pad, reason } => ConfigFault::BadTitle {
                pad: pad@,
                reason: reason@,
            },
            ConfigError::BadSize(e) => ConfigFault::BadSize(e@),
            ConfigError::UnknownPad { pad, known } => ConfigFault::UnknownPad {
                pad: pad@,
                known: known@,
            },
            ConfigError::PadNotGiven { known } => ConfigFault::PadNotGiven { known: known@ },
            ConfigError::NoHome => ConfigFault::NoHome,
        }
    }
}

impl ConfigFault {
    /// The words for the fault.
    pub open spec fn words(self) -> Seq<char> {
        match self {
            ConfigFault::NoPads => "配置中没有定义任何 pad（需要 [pads.<名字>] 段）"@,
            ConfigFault::NoAppId { pad } => "pad '"@ + pad + "' 缺少 app_id"@,
            ConfigFault::BadAppId { pad, reason } => "pad '"@ + pad
                + "' 的 app_id 不是合法正则表达式: "@ + reason,
            ConfigFault::BadTitle { pad, reason } => "pad '"@ + pad
                + "' 的 title 不是合法正则表达式: "@ + reason,
            ConfigFault::BadSize(fault) => fault.words(),
            ConfigFault::UnknownPad { pad, known } => "配置中没有名为 '"@ + pad
                + "' 的 pad（可用: "@ + known + "）"@,
            ConfigFault::PadNotGiven { known } => "未指定 pad 名（可用: "@ + known + "）"@,
            ConfigFault::NoHome => "无法定位配置文件：HOME 未设置"@,
        }
    }
}

impl ConfigError {
    /// What to tell the user.
    pub fn message(&self) -> (r: String)
        ensures
            r@ == self@.words(),
    {
        match self {
            ConfigError::NoPads => "配置中没有定义任何 pad（需要 [pads.<名字>] 段）".to_owned(),
            ConfigError::NoAppId { pad } => {
                let mut s = "pad '".to_owned();
                s.append(pad.as_str());
                s.append("' 缺少 app_id");
                s
            },
            ConfigError::BadAppId { pad, reason } => {
                let mut s = "pad '".to_owned();
                s.append(pad.as_str());
                s.append("' 的 app_id 不是合法正则表达式: ");
                s.append(reason.as_str());
                s
            },
            ConfigError::BadTitle { pad, reason } => {
                let mut s = "pad '".to_owned();
                s.append(pad.as_str());
                s.append("' 的 title 不是合法正则表达式: ");
                s.append(reason.as_str());
                s
            },
            ConfigError::BadSize(e) => e.message(),
            ConfigError::UnknownPad { pad, known } => {
                let mut s = "配置中没有名为 '".to_owned();
                s.append(pad.as_str());
                s.append("' 的 pad（可用: ");
                s.append(known.as_str());
                s.append("）");
                s
            },
            ConfigError::PadNotGiven { known } => {
                let mut s = "未指定 pad 名（可用: ".to_owned();
                s.append(known.as_str());
                s.append("）");
                s
            },
            ConfigError::NoHome => "无法定位配置文件：HOME 未设置".to_owned(),
        }
    }
}

} // verus!

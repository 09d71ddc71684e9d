//! Messages that the library hands to whoever logs them.
use vstd::prelude::*;

verus! {

/// How loudly a message is reported.
#[derive(Debug, Clone, Copy, PartialEq, Eq)]
pub enum NoticeLevel {
    Info,
    Warn,
}

/// One message to log.
#[derive(Debug, Clone)]
pub struct Notice {
    pub level: NoticeLevel,
    pub message: String,
}

/// What a list of notices says: each one's level and text.
pub open spec fn notices_view(v: Seq<Notice>) -> Seq<(NoticeLevel, Seq<char>)> {
    v.map_values(|n: Notice| (n.level, n.message@))
}

} // verus!

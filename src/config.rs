//! Process-wide settings.
use std::collections::HashSet;
use vstd::prelude::*;

verus! {

/// Role settings: the role whose holders are officers.
pub struct RoleConfig {
    pub lpd: u64,
}

/// Which voice channels count towards patrol time, and which channel names
/// may not represent a patrol.
pub struct PatrolTime {
    pub monitored_categories: HashSet<u64>,
    pub monitored_channels: HashSet<u64>,
    pub ignored_channels: HashSet<u64>,
    pub bad_main_channel_starts: Vec<String>,
}

/// All settings of one running instance, which serves a single guild.
pub struct Config {
    pub token: String,
    pub guild_id: u64,
    pub guild_error_text: String,
    pub roles: RoleConfig,
    pub patrol_time: PatrolTime,
}

/// The directory part of `file`, with its trailing `/`; empty when `file`
/// names no directory.
pub open spec fn parent_folder(file: Seq<char>) -> Seq<char>
    decreases file.len(),
{
    if file.len() == 0 {
        Seq::empty()
    } else if file.last() == '/' {
        file
    } else {
        parent_folder(file.drop_last())
    }
}

/// The folder that holds a settings file, ending in `/` (empty for a bare
/// file name), so that sibling files can be named from it.
pub fn get_parent_folder(file: &str) -> (r: String)
    ensures
        r@ == parent_folder(file@),
{
    let n = file.unicode_len();
    let mut i: usize = n;
    assert(file@.subrange(0, n as int) =~= file@);
    while i > 0
        invariant
            i <= n,
            n == file@.len(),
            parent_folder(file@) == parent_folder(file@.subrange(0, i as int)),
        decreases i,
    {
        if file.get_char(i - 1) == '/' {
            assert(file@.subrange(0, i as int).last() == '/');
            return String::from_str(file.substring_char(0, i));
        }
        assert(file@.subrange(0, i as int).drop_last() =~= file@.subrange(0, i - 1));
        i = i - 1;
    }
    String::new()
}

} // verus!

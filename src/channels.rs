//! Which voice channels count as on-duty channels.
use crate::config::PatrolTime;
use crate::tracker::{ChannelLog, TrackerError};
use vstd::prelude::*;

verus! {

broadcast use vstd::std_specs::hash::group_hash_axioms;

/// A channel is monitored when it, or the category holding it, is listed,
/// and it is not ignored; an ignored channel is never monitored.
pub open spec fn monitored(pt: &PatrolTime, channel_id: u64, category_id: Option<u64>) -> bool {
    &&& (pt.monitored_channels@.contains(channel_id) || (category_id is Some
        && pt.monitored_categories@.contains(category_id->0)))
    &&& !pt.ignored_channels@.contains(channel_id)
}

/// Whether a channel is ignored whatever else the settings say of it.
pub fn is_ignored_channel(pt: &PatrolTime, channel_id: u64) -> (r: bool)
    ensures
        r == pt.ignored_channels@.contains(channel_id),
{
    pt.ignored_channels.contains(&channel_id)
}

/// Whether time spent in `channel_id`, which sits in `category_id`, counts as
/// patrol time.
pub fn is_monitored(pt: &PatrolTime, channel_id: u64, category_id: Option<u64>) -> (r: bool)
    ensures
        r == monitored(pt, channel_id, category_id),
{
    if let Some(category_id) = category_id {
        if pt.monitored_categories.contains(&category_id) {
            return !is_ignored_channel(pt, channel_id);
        }
    }
    if pt.monitored_channels.contains(&channel_id) {
        return !is_ignored_channel(pt, channel_id);
    }
    false
}

/// `prefix` is the beginning of `s`.
pub open spec fn is_prefix(prefix: Seq<char>, s: Seq<char>) -> bool {
    prefix.len() <= s.len() && s.subrange(0, prefix.len() as int) == prefix
}

/// Whether `prefix` is the beginning of `s`.
fn str_starts_with(s: &str, prefix: &str) -> (r: bool)
    ensures
        r == is_prefix(prefix@, s@),
{
    let n = prefix.unicode_len();
    if n > s.unicode_len() {
        return false;
    }
    let mut i: usize = 0;
    while i < n
        invariant
            i <= n,
            n == prefix@.len(),
            n <= s@.len(),
            forall|k: int| 0 <= k < i ==> s@[k] == prefix@[k],
        decreases n - i,
    {
        if s.get_char(i) != prefix.get_char(i) {
            assert(s@.subrange(0, n as int)[i as int] != prefix@[i as int]);
            return false;
        }
        i = i + 1;
    }
    assert(s@.subrange(0, n as int) =~= prefix@);
    true
}

/// The name starts with one of the bad prefixes.
pub open spec fn has_bad_start(name: Seq<char>, bad_starts: Seq<String>) -> bool {
    exists|j: int| 0 <= j < bad_starts.len() && is_prefix(#[trigger] bad_starts[j]@, name)
}

/// A channel may represent a patrol when its name is known and starts with
/// no bad prefix.
pub open spec fn can_be_main(name: Option<String>, bad_starts: Seq<String>) -> bool {
    match name {
        Some(n) => !has_bad_start(n@, bad_starts),
        None => false,
    }
}

/// The first position from `i` on whose name may represent a patrol, or the
/// last position when there is none.
pub open spec fn first_main_from(names: Seq<Option<String>>, bad_starts: Seq<String>, i: int) -> int
    decreases names.len() - i,
{
    if i >= names.len() {
        names.len() - 1
    } else if can_be_main(names[i], bad_starts) {
        i
    } else {
        first_main_from(names, bad_starts, i + 1)
    }
}

/// Where the main channel of a patrol stands in its log, given the name of
/// each stretch's channel.
pub open spec fn main_index(names: Seq<Option<String>>, bad_starts: Seq<String>) -> int {
    first_main_from(names, bad_starts, 0)
}

proof fn lemma_first_main_from(names: Seq<Option<String>>, bad_starts: Seq<String>, i: int)
    requires
        0 <= i <= names.len(),
        names.len() > 0,
    ensures
        ({
            let k = first_main_from(names, bad_starts, i);
            &&& 0 <= k < names.len()
            &&& (exists|j: int| i <= j < names.len() && can_be_main(#[trigger] names[j], bad_starts))
                ==> i <= k && can_be_main(names[k], bad_starts) && forall|j: int|
                i <= j < k ==> !can_be_main(#[trigger] names[j], bad_starts)
            &&& (forall|j: int| i <= j < names.len() ==> !can_be_main(#[trigger] names[j], bad_starts))
                ==> k == names.len() - 1
        }),
    decreases names.len() - i,
{
    if i < names.len() && !can_be_main(names[i], bad_starts) {
        lemma_first_main_from(names, bad_starts, i + 1);
    }
}

/// The main channel is the first whose name is known and starts with no bad
/// prefix; when there is none, it is the last channel.
pub proof fn lemma_main_channel_choice(names: Seq<Option<String>>, bad_starts: Seq<String>)
    requires
        names.len() > 0,
    ensures
        0 <= main_index(names, bad_starts) < names.len(),
        (exists|j: int| 0 <= j < names.len() && can_be_main(#[trigger] names[j], bad_starts)) ==> {
            let k = main_index(names, bad_starts);
            &&& can_be_main(names[k], bad_starts)
            &&& forall|j: int| 0 <= j < k ==> !can_be_main(#[trigger] names[j], bad_starts)
        },
        (forall|j: int| 0 <= j < names.len() ==> !can_be_main(#[trigger] names[j], bad_starts))
            ==> main_index(names, bad_starts) == names.len() - 1,
{
    lemma_first_main_from(names, bad_starts, 0);
}

/// Whether `name` starts with one of `bad_starts`.
pub fn starts_badly(name: &String, bad_starts: &Vec<String>) -> (r: bool)
    ensures
        r == has_bad_start(name@, bad_starts@),
{
    let mut j: usize = 0;
    while j < bad_starts.len()
        invariant
            j <= bad_starts@.len(),
            forall|k: int| 0 <= k < j ==> !is_prefix(#[trigger] bad_starts@[k]@, name@),
        decreases bad_starts@.len() - j,
    {
        if str_starts_with(name.as_str(), bad_starts[j].as_str()) {
            return true;
        }
        j = j + 1;
    }
    false
}

/// The channel that represents a patrol: the channel of the first stretch
/// whose name (`names[i]` for `voice_log[i]`) is known and starts with no
/// bad prefix, or of the last stretch when there is none. Fails on an empty log or on
/// names that do not match it.
pub fn get_main_channel(
    voice_log: &Vec<ChannelLog>,
    names: &Vec<Option<String>>,
    bad_starts: &Vec<String>,
) -> (r: Result<u64, TrackerError>)
    ensures
        voice_log@.len() == 0 || names@.len() != voice_log@.len() ==> r == Err::<u64, TrackerError>(
            TrackerError::InvariantViolation,
        ),
        voice_log@.len() > 0 && names@.len() == voice_log@.len() ==> r == Ok::<u64, TrackerError>(
            voice_log@[main_index(names@, bad_starts@)].channel_id,
        ),
{
    let n = voice_log.len();
    if n == 0 || names.len() != n {
        return Err(TrackerError::InvariantViolation);
    }
    let mut i: usize = 0;
    while i < n
        invariant
            i <= n,
            n == voice_log@.len(),
            n == names@.len(),
            main_index(names@, bad_starts@) == first_main_from(names@, bad_starts@, i as int),
        decreases n - i,
    {
        let eligible = match &names[i] {
            Some(name) => !starts_badly(name, bad_starts),
            None => false,
        };
        if eligible {
            return Ok(voice_log[i].channel_id);
        }
        i = i + 1;
    }
    Ok(voice_log[n - 1].channel_id)
}

} // verus!

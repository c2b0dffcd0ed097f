//! The per-patrol listing that the patrol-time command shows: each patrol's
//! start and length, then the start and length of each of its stretches.
use crate::duration::{display_duration, duration_text};
use crate::store::{Patrol, PatrolVoice};
use vstd::prelude::*;

verus! {

/// The largest distance, in seconds, from the Unix epoch of a time that the
/// listing writes out (about 253,000 years).
pub const MAX_TIME: i64 = 8_000_000_000_000;

/// How a time is written in the listing: chrono's text of the UTC date and
/// time (`YYYY-MM-DD HH:MM:SS`).
pub uninterp spec fn datetime_text(ts: i64) -> Seq<char>;

/// Relies on `chrono::DateTime::from_timestamp`, which gives a date and time
/// for every time within about 262,000 years of 1970 (so for every time
/// within `MAX_TIME`), and on the `Display` of `NaiveDateTime`, whose text
/// depends on the time alone.
#[verifier::external_body]
fn datetime_string(ts: i64) -> (r: String)
    requires
        -MAX_TIME <= ts <= MAX_TIME,
    ensures
        r@ == datetime_text(ts),
{
    chrono::DateTime::from_timestamp(ts, 0).unwrap().naive_utc().to_string()
}

/// `s` without its last character, if it has one.
pub open spec fn without_last(s: Seq<char>) -> Seq<char> {
    if s.len() == 0 {
        s
    } else {
        s.drop_last()
    }
}

/// A time that the listing can write out.
pub open spec fn writable(ts: i64) -> bool {
    -MAX_TIME <= ts <= MAX_TIME
}

/// Every time of the patrols and their stretches can be written out.
pub open spec fn writable_patrols(patrols: Seq<(Patrol, Vec<PatrolVoice>)>) -> bool {
    forall|i: int|
        0 <= i < patrols.len() ==> {
            &&& writable(#[trigger] patrols[i].0.start)
            &&& writable(patrols[i].0.end)
            &&& forall|j: int|
                0 <= j < patrols[i].1@.len() ==> writable(#[trigger] patrols[i].1@[j].start)
                    && writable(patrols[i].1@[j].end)
        }
}

/// One stretch: indented, its start, ` - `, its length, a newline.
pub open spec fn voice_line(start: Seq<char>, v: PatrolVoice) -> Seq<char> {
    seq![' ', ' ', ' ', ' '] + start + seq![' ', '-', ' '] + duration_text(v.end - v.start)
        + seq!['\n']
}

/// The lines of the stretches, given the text of each one's start.
pub open spec fn voices_text(starts: Seq<Seq<char>>, voices: Seq<PatrolVoice>) -> Seq<char>
    decreases voices.len(),
{
    if voices.len() == 0 {
        Seq::empty()
    } else {
        voices_text(starts, voices.drop_last()) + voice_line(
            starts[voices.len() - 1],
            voices.last(),
        )
    }
}

/// One patrol: its start, ` - `, its length, then its stretches' lines
/// (without the last newline), and a newline.
pub open spec fn patrol_block(start: Seq<char>, p: Patrol, voices: Seq<char>) -> Seq<char> {
    start + seq![' ', '-', ' '] + duration_text(p.end - p.start) + seq!['\n'] + without_last(voices)
        + seq!['\n']
}

/// The blocks of the patrols, given the text of each start.
pub open spec fn blocks_text(
    patrols: Seq<(Patrol, Vec<PatrolVoice>)>,
    starts: Seq<Seq<char>>,
    voice_starts: Seq<Seq<Seq<char>>>,
) -> Seq<char>
    decreases patrols.len(),
{
    if patrols.len() == 0 {
        Seq::empty()
    } else {
        let k = patrols.len() - 1;
        blocks_text(patrols.drop_last(), starts, voice_starts) + patrol_block(
            starts[k],
            patrols[k].0,
            voices_text(voice_starts[k], patrols[k].1@),
        )
    }
}

/// The listing: the blocks without the last newline, in a code block.
pub open spec fn listing_text(
    patrols: Seq<(Patrol, Vec<PatrolVoice>)>,
    starts: Seq<Seq<char>>,
    voice_starts: Seq<Seq<Seq<char>>>,
) -> Seq<char> {
    seq!['`', '`', '`', '\n'] + without_last(blocks_text(patrols, starts, voice_starts)) + seq![
        '`',
        '`',
        '`',
    ]
}

/// The text of each string.
pub open spec fn texts_of(v: Seq<String>) -> Seq<Seq<char>> {
    v.map_values(|s: String| s@)
}

/// The texts of each list of strings.
pub open spec fn nested_texts_of(v: Seq<Vec<String>>) -> Seq<Seq<Seq<char>>> {
    v.map_values(|w: Vec<String>| texts_of(w@))
}

/// The start texts fit the patrols: one per patrol and one per stretch.
pub open spec fn texts_fit(
    patrols: Seq<(Patrol, Vec<PatrolVoice>)>,
    starts: Seq<String>,
    voice_starts: Seq<Vec<String>>,
) -> bool {
    &&& starts.len() == patrols.len()
    &&& voice_starts.len() == patrols.len()
    &&& forall|i: int| 0 <= i < patrols.len() ==> #[trigger] voice_starts[i]@.len() == patrols[i].1@.len()
}

fn drop_last_char(s: String) -> (r: String)
    ensures
        r@ == without_last(s@),
{
    let n = s.as_str().unicode_len();
    if n == 0 {
        return s;
    }
    String::from_str(s.as_str().substring_char(0, n - 1))
}

/// The lines of the stretches `voices`, where `texts[j]` is the text of the
/// start of stretch `j`.
fn render_voices(voices: &Vec<PatrolVoice>, texts: &Vec<String>) -> (r: String)
    requires
        texts@.len() == voices@.len(),
        forall|k: int| 0 <= k < voices@.len() ==> writable(#[trigger] voices@[k].start)
            && writable(voices@[k].end),
    ensures
        r@ == voices_text(texts_of(texts@), voices@),
{
    let mut lines = String::new();
    assert(voices@.subrange(0, 0) =~= Seq::<PatrolVoice>::empty());
    let mut j: usize = 0;
    while j < voices.len()
        invariant
            j <= voices@.len(),
            texts@.len() == voices@.len(),
            forall|k: int| 0 <= k < voices@.len() ==> writable(#[trigger] voices@[k].start)
                && writable(voices@[k].end),
            lines@ == voices_text(texts_of(texts@), voices@.subrange(0, j as int)),
        decreases voices@.len() - j,
    {
        let v = &voices[j];
        assert(writable(v.start) && writable(v.end));
        let ghost before = lines@;
        proof {
            reveal_strlit("    ");
            reveal_strlit(" - ");
            reveal_strlit("\n");
        }
        lines.append("    ");
        lines.append(texts[j].as_str());
        lines.append(" - ");
        lines.append(display_duration(v.end - v.start).as_str());
        lines.append("\n");
        assert(lines@ =~= before + voice_line(texts_of(texts@)[j as int], *v));
        assert(voices@.subrange(0, j + 1).drop_last() =~= voices@.subrange(0, j as int));
        j = j + 1;
    }
    assert(voices@.subrange(0, j as int) =~= voices@);
    lines
}

/// The listing of `patrols`, where `starts[i]` is the text of the start of
/// patrol `i` and `voice_starts[i][j]` that of its stretch `j`.
pub fn render_patrol_list(
    patrols: &Vec<(Patrol, Vec<PatrolVoice>)>,
    starts: &Vec<String>,
    voice_starts: &Vec<Vec<String>>,
) -> (r: String)
    requires
        writable_patrols(patrols@),
        texts_fit(patrols@, starts@, voice_starts@),
    ensures
        r@ == listing_text(patrols@, texts_of(starts@), nested_texts_of(voice_starts@)),
{
    let mut blocks = String::new();
    assert(patrols@.subrange(0, 0) =~= Seq::<(Patrol, Vec<PatrolVoice>)>::empty());
    let mut i: usize = 0;
    while i < patrols.len()
        invariant
            i <= patrols@.len(),
            writable_patrols(patrols@),
            texts_fit(patrols@, starts@, voice_starts@),
            blocks@ == blocks_text(
                patrols@.subrange(0, i as int),
                texts_of(starts@),
                nested_texts_of(voice_starts@),
            ),
        decreases patrols@.len() - i,
    {
        let p = &patrols[i].0;
        let voices = &patrols[i].1;
        let texts = &voice_starts[i];
        assert(writable(patrols@[i as int].0.start));
        assert(forall|k: int| 0 <= k < voices@.len() ==> writable(#[trigger] voices@[k].start)
            && writable(voices@[k].end));
        let lines = render_voices(voices, texts);
        let ghost before = blocks@;
        proof {
            reveal_strlit(" - ");
            reveal_strlit("\n");
        }
        blocks.append(starts[i].as_str());
        blocks.append(" - ");
        blocks.append(display_duration(p.end - p.start).as_str());
        blocks.append("\n");
        blocks.append(drop_last_char(lines).as_str());
        blocks.append("\n");
        assert(blocks@ =~= before + patrol_block(texts_of(starts@)[i as int], *p, lines@));
        assert(patrols@.subrange(0, i + 1).drop_last() =~= patrols@.subrange(0, i as int));
        i = i + 1;
    }
    assert(patrols@.subrange(0, i as int) =~= patrols@);
    proof {
        reveal_strlit("```\n");
        reveal_strlit("```");
    }
    let mut out = String::from_str("```\n");
    out.append(drop_last_char(blocks).as_str());
    out.append("```");
    out
}

/// The written start of each patrol.
pub open spec fn patrol_start_texts(patrols: Seq<(Patrol, Vec<PatrolVoice>)>) -> Seq<Seq<char>> {
    Seq::new(patrols.len(), |i: int| datetime_text(patrols[i].0.start))
}

/// The written start of each stretch of each patrol.
pub open spec fn voice_start_texts(patrols: Seq<(Patrol, Vec<PatrolVoice>)>) -> Seq<
    Seq<Seq<char>>,
> {
    Seq::new(
        patrols.len(),
        |i: int| Seq::new(patrols[i].1@.len(), |j: int| datetime_text(patrols[i].1@[j].start)),
    )
}

/// The listing of the patrols that a query returned, each time written by
/// chrono (see [`render_patrol_list`]).
pub fn format_patrol_list(patrols: &Vec<(Patrol, Vec<PatrolVoice>)>) -> (r: String)
    requires
        writable_patrols(patrols@),
    ensures
        r@ == listing_text(patrols@, patrol_start_texts(patrols@), voice_start_texts(patrols@)),
{
    let mut starts: Vec<String> = Vec::new();
    let mut voice_starts: Vec<Vec<String>> = Vec::new();
    let mut i: usize = 0;
    while i < patrols.len()
        invariant
            i <= patrols@.len(),
            writable_patrols(patrols@),
            starts@.len() == i,
            voice_starts@.len() == i,
            forall|k: int| 0 <= k < i ==> #[trigger] starts@[k]@ == datetime_text(patrols@[k].0.start),
            forall|k: int|
                0 <= k < i ==> #[trigger] voice_starts@[k]@.len() == patrols@[k].1@.len() && forall|
                    j: int,
                | 0 <= j < patrols@[k].1@.len() ==> #[trigger] voice_starts@[k]@[j]@ == datetime_text(
                    patrols@[k].1@[j].start,
                ),
        decreases patrols@.len() - i,
    {
        let p = &patrols[i];
        assert(writable(patrols@[i as int].0.start));
        starts.push(datetime_string(p.0.start));
        let mut texts: Vec<String> = Vec::new();
        let mut j: usize = 0;
        while j < p.1.len()
            invariant
                j <= p.1@.len(),
                texts@.len() == j,
                forall|m: int| 0 <= m < p.1@.len() ==> writable(#[trigger] p.1@[m].start),
                forall|m: int| 0 <= m < j ==> #[trigger] texts@[m]@ == datetime_text(p.1@[m].start),
            decreases p.1@.len() - j,
        {
            texts.push(datetime_string(p.1[j].start));
            j = j + 1;
        }
        voice_starts.push(texts);
        i = i + 1;
    }
    assert(texts_of(starts@) =~= patrol_start_texts(patrols@));
    assert(nested_texts_of(voice_starts@) =~= voice_start_texts(patrols@)) by {
        assert forall|k: int| 0 <= k < patrols@.len() implies #[trigger] nested_texts_of(voice_starts@)[k]
            =~= voice_start_texts(patrols@)[k] by {}
    }
    render_patrol_list(patrols, &starts, &voice_starts)
}

} // verus!

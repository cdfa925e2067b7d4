//! Resource locators: extraction of the final path segment of a
//! locator string, and the model of how filenames are derived from an
//! ordered list of locators during one construction pass.

use vstd::prelude::*;
use crate::names::{synth_name, synth_prefix, lemma_synth_name_prefix};

verus! {

/// What the `url` crate yields for a locator string: `None` when the
/// string does not parse as a structured locator or has no path
/// segments at all; otherwise the last path segment, which may be the
/// empty string. The result depends on the string alone.
pub uninterp spec fn last_segment_of(s: Seq<char>) -> Option<Option<Seq<char>>>;

/// The view of an extracted segment, for stating what the extraction
/// returns.
pub open spec fn seg_view(r: Option<Option<String>>) -> Option<Option<Seq<char>>> {
    match r {
        Option::None => Option::None,
        Option::Some(Option::None) => Option::Some(Option::None),
        Option::Some(Option::Some(s)) => Option::Some(Option::Some(s@)),
    }
}

/// Relies on `url::Url::parse` and `url::Url::path_segments`: parsing
/// is deterministic in the string, and `path_segments` is `None`
/// exactly for locators that cannot carry a path; the last of the
/// returned segments may be empty.
#[verifier::external_body]
pub fn url_last_segment(s: &String) -> (r: Option<Option<String>>)
    ensures
        seg_view(r) == last_segment_of(s@),
{
    match url::Url::parse(s.as_str()) {
        Err(_) => None,
        Ok(u) => match u.path_segments() {
            None => None,
            Some(segs) => Some(segs.last().map(|seg| seg.to_string())),
        },
    }
}

/// The views of an ordered list of locator strings.
pub open spec fn seq_views(ss: Seq<String>) -> Seq<Seq<char>> {
    ss.map_values(|s: String| s@)
}

/// A locator is acceptable when its structure parses and it carries a
/// path; an unacceptable locator aborts the whole construction.
pub open spec fn loc_ok(l: Seq<char>) -> bool {
    last_segment_of(l) is Some
}

/// Whether the filename for this locator is synthesized: its last path
/// segment is absent or empty.
pub open spec fn is_synth(l: Seq<char>) -> bool {
    match last_segment_of(l) {
        Option::Some(Option::Some(s)) => s.len() == 0,
        _ => true,
    }
}

/// The counter value in force just before locator `i` of the pass: the
/// number of earlier locators whose filename was synthesized.
pub open spec fn counter_before(locs: Seq<Seq<char>>, i: int) -> nat
    decreases i,
{
    if i <= 0 {
        0
    } else {
        counter_before(locs, i - 1) + if is_synth(locs[i - 1]) {
            1nat
        } else {
            0nat
        }
    }
}

/// The filename derived for locator `i` of the pass: its last path
/// segment when present and non-empty, else a synthesized name.
pub open spec fn name_at(locs: Seq<Seq<char>>, i: int) -> Seq<char> {
    match last_segment_of(locs[i]) {
        Option::Some(Option::Some(s)) => if s.len() > 0 {
            s
        } else {
            synth_name(counter_before(locs, i))
        },
        _ => synth_name(counter_before(locs, i)),
    }
}

/// The counter never decreases along the pass, and strictly grows past
/// a locator whose name was synthesized.
pub proof fn lemma_counter_monotone(locs: Seq<Seq<char>>, i: int, j: int)
    requires
        0 <= i <= j,
    ensures
        counter_before(locs, i) <= counter_before(locs, j),
        i < j && is_synth(locs[i]) ==> counter_before(locs, i) < counter_before(locs, j),
    decreases j - i,
{
    if i < j {
        lemma_counter_monotone(locs, i + 1, j);
    }
}

/// Two locators whose filenames are both synthesized in one pass get
/// distinct counter values, hence distinct filenames.
pub proof fn lemma_synth_names_distinct(locs: Seq<Seq<char>>, i: int, j: int)
    requires
        0 <= i < j < locs.len(),
        is_synth(locs[i]),
        is_synth(locs[j]),
    ensures
        counter_before(locs, i) < counter_before(locs, j),
        name_at(locs, i) != name_at(locs, j),
{
    lemma_counter_monotone(locs, i, j);
    if name_at(locs, i) == name_at(locs, j) {
        crate::names::lemma_synth_name_injective(
            counter_before(locs, i),
            counter_before(locs, j),
        );
    }
}

/// Filenames of one pass are pairwise distinct as soon as the derived
/// segments are pairwise distinct and none of them begins with the
/// reserved prefix: a derived name can then never collide with a
/// synthesized one, and collisions among the synthesized names
/// themselves are ruled out by the counter.
pub proof fn lemma_names_pairwise_distinct(locs: Seq<Seq<char>>)
    requires
        forall|i: int, j: int|
            0 <= i < j < locs.len() && !is_synth(locs[i]) && !is_synth(locs[j]) ==> name_at(
                locs,
                i,
            ) != name_at(locs, j),
        forall|i: int|
            0 <= i < locs.len() && !is_synth(locs[i]) ==> (name_at(locs, i).len() <= 4 || name_at(
                locs,
                i,
            ).take(4) != synth_prefix()),
    ensures
        forall|i: int, j: int| 0 <= i < j < locs.len() ==> name_at(locs, i) != name_at(locs, j),
{
    assert forall|i: int, j: int| 0 <= i < j < locs.len() implies name_at(locs, i) != name_at(
        locs,
        j,
    ) by {
        if is_synth(locs[i]) && is_synth(locs[j]) {
            lemma_synth_names_distinct(locs, i, j);
        } else if is_synth(locs[i]) && !is_synth(locs[j]) {
            lemma_synth_name_prefix(counter_before(locs, i));
        } else if !is_synth(locs[i]) && is_synth(locs[j]) {
            lemma_synth_name_prefix(counter_before(locs, j));
        }
    }
}

} // verus!

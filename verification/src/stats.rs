use vstd::prelude::*;
use crate::codec::{Record, decodes_to, is_record_bytes, record_bytes};
use crate::data::SharedData;
use crate::section::{Section, texts};
use crate::section_store::SectionView;
use crate::util;

verus! {

/// Whether a section is of the given award and section index.
pub open spec fn in_section(s: Section, award: Seq<char>, section_index: usize) -> bool {
    s.award@ == award && s.section_index == section_index
}

/// How many of the sections are of the given award and section index, and,
/// when `activity` is given, of that activity; with `completed_only`, only
/// the completed ones count.
pub open spec fn tally(
    sections: Seq<Section>,
    award: Seq<char>,
    section_index: usize,
    activity: Option<Seq<char>>,
    completed_only: bool,
) -> nat
    decreases sections.len(),
{
    if sections.len() == 0 {
        0
    } else {
        let s = sections.last();
        let counted = in_section(s, award, section_index) && match activity {
            Some(a) => s.activity@ == a,
            None => true,
        } && (!completed_only || s.state is Completed);
        tally(sections.drop_last(), award, section_index, activity, completed_only) + if counted {
            1nat
        } else {
            0nat
        }
    }
}

/// A tally never exceeds the number of sections.
proof fn lemma_tally_bounded(
    sections: Seq<Section>,
    award: Seq<char>,
    section_index: usize,
    activity: Option<Seq<char>>,
    completed_only: bool,
)
    ensures
        tally(sections, award, section_index, activity, completed_only) <= sections.len(),
    decreases sections.len(),
{
    if sections.len() > 0 {
        lemma_tally_bounded(sections.drop_last(), award, section_index, activity, completed_only);
    }
}

/// Only completed sections count towards a completed-only tally: no
/// sections give none; a further section that is not completed leaves it as
/// it was, whatever its award, section and activity, and a completed one of
/// the award, section and (when given) activity adds one; and it never
/// exceeds the tally of all those sections.
pub proof fn law_completed_tally(
    sections: Seq<Section>,
    award: Seq<char>,
    section_index: usize,
    activity: Option<Seq<char>>,
    s: Section,
)
    ensures
        tally(Seq::empty(), award, section_index, activity, true) == 0,
        !(s.state is Completed) ==> tally(sections.push(s), award, section_index, activity, true) == tally(
            sections,
            award,
            section_index,
            activity,
            true,
        ),
        s.state is Completed && s.award@ == award && s.section_index == section_index && (activity is Some
            ==> s.activity@ == activity->Some_0) ==> tally(sections.push(s), award, section_index, activity, true)
            == tally(sections, award, section_index, activity, true) + 1,
        tally(sections, award, section_index, activity, true) <= tally(sections, award, section_index, activity, false),
    decreases sections.len(),
{
    assert(sections.push(s).drop_last() =~= sections);
    if sections.len() > 0 {
        law_completed_tally(sections.drop_last(), award, section_index, activity, sections.last());
    }
}

/// How many of the sections are of the given award, section index and
/// (when given) activity, and with `completed_only` completed.
pub fn count_sections(
    sections: &Vec<Section>,
    award: &str,
    section_index: usize,
    activity: Option<&str>,
    completed_only: bool,
) -> (res: usize)
    ensures
        res == tally(sections@, award@, section_index, match activity {
            Some(a) => Some(a@),
            None => None,
        }, completed_only),
{
    let ghost act = match activity {
        Some(a) => Some(a@),
        None => None::<Seq<char>>,
    };
    let mut count: usize = 0;
    let mut i: usize = 0;
    while i < sections.len()
        invariant
            i <= sections@.len(),
            count == tally(sections@.take(i as int), award@, section_index, act, completed_only),
            act == match activity {
                Some(a) => Some(a@),
                None => None::<Seq<char>>,
            },
        decreases sections@.len() - i,
    {
        proof {
            assert(sections@.take(i + 1).drop_last() =~= sections@.take(i as int));
            lemma_tally_bounded(sections@.take(i as int), award@, section_index, act, completed_only);
        }
        let s = &sections[i];
        let mut counted = util::same_text(s.award.as_str(), award) && s.section_index == section_index;
        if counted {
            if let Some(a) = activity {
                counted = util::same_text(s.activity.as_str(), a);
            }
        }
        if counted && completed_only {
            counted = s.state.is_completed();
        }
        if counted {
            count = count + 1;
        }
        i = i + 1;
    }
    assert(sections@.take(sections@.len() as int) =~= sections@);
    count
}

/// The tallies of one activity: how many sections chose it and how many of
/// those are completed.
#[derive(Debug, Clone, Copy, PartialEq, Eq, Structural)]
pub struct ActivityTally {
    pub selected: usize,
    pub completed: usize,
}

/// The tallies of each activity of a section of an award, in the order of
/// the activities' keys.
pub fn activity_tallies(sections: &Vec<Section>, award: &str, section_index: usize, activity_keys: &Vec<String>) -> (res: Vec<ActivityTally>)
    ensures
        res@.len() == activity_keys@.len(),
        forall|j: int|
            0 <= j < res@.len() ==> #[trigger] res@[j].selected == tally(
                sections@,
                award@,
                section_index,
                Some(activity_keys@[j]@),
                false,
            ) && res@[j].completed == tally(sections@, award@, section_index, Some(activity_keys@[j]@), true),
{
    let mut out: Vec<ActivityTally> = Vec::new();
    let mut j: usize = 0;
    while j < activity_keys.len()
        invariant
            j <= activity_keys@.len(),
            out@.len() == j,
            forall|q: int|
                0 <= q < j ==> #[trigger] out@[q].selected == tally(
                    sections@,
                    award@,
                    section_index,
                    Some(activity_keys@[q]@),
                    false,
                ) && out@[q].completed == tally(sections@, award@, section_index, Some(activity_keys@[q]@), true),
        decreases activity_keys@.len() - j,
    {
        let key = activity_keys[j].as_str();
        let selected = count_sections(sections, award, section_index, Some(key), false);
        let completed = count_sections(sections, award, section_index, Some(key), true);
        out.push(ActivityTally { selected, completed });
        j = j + 1;
    }
    out
}

/// The completions of the listed activities, added up.
pub open spec fn completions_of(
    sections: Seq<Section>,
    award: Seq<char>,
    section_index: usize,
    keys: Seq<Seq<char>>,
) -> nat
    decreases keys.len(),
{
    if keys.len() == 0 {
        0
    } else {
        completions_of(sections, award, section_index, keys.drop_last()) + tally(
            sections,
            award,
            section_index,
            Some(keys.last()),
            true,
        )
    }
}

/// The figures of one section of an award: how many sections of it were
/// begun, the choices and completions of each of its activities, and their
/// completions added up.
pub struct SectionStats {
    pub total: usize,
    pub tallies: Vec<ActivityTally>,
    pub completions: u128,
}

/// The figures of the section at `section_index` of the award, over the
/// activities under `activity_keys`.
pub fn section_stats(sections: &Vec<Section>, award: &str, section_index: usize, activity_keys: &Vec<String>) -> (res: SectionStats)
    ensures
        res.total == tally(sections@, award@, section_index, None, false),
        res.tallies@.len() == activity_keys@.len(),
        forall|j: int|
            0 <= j < res.tallies@.len() ==> #[trigger] res.tallies@[j].selected == tally(
                sections@,
                award@,
                section_index,
                Some(activity_keys@[j]@),
                false,
            ) && res.tallies@[j].completed == tally(sections@, award@, section_index, Some(activity_keys@[j]@), true),
        res.completions == completions_of(sections@, award@, section_index, texts(activity_keys@)),
{
    let total = count_sections(sections, award, section_index, None, false);
    let tallies = activity_tallies(sections, award, section_index, activity_keys);
    let ghost keys = texts(activity_keys@);
    let count: usize = sections.len();
    let ghost n = sections@.len();
    assert(n == count);
    let mut completions: u128 = 0;
    let mut j: usize = 0;
    while j < tallies.len()
        invariant
            j <= tallies@.len(),
            tallies@.len() == activity_keys@.len(),
            keys == texts(activity_keys@),
            n == sections@.len(),
            forall|q: int|
                0 <= q < tallies@.len() ==> #[trigger] tallies@[q].selected == tally(
                    sections@,
                    award@,
                    section_index,
                    Some(activity_keys@[q]@),
                    false,
                ) && tallies@[q].completed == tally(sections@, award@, section_index, Some(activity_keys@[q]@), true),
            n <= usize::MAX,
            completions == completions_of(sections@, award@, section_index, keys.take(j as int)),
            completions <= j * n,
        decreases tallies@.len() - j,
    {
        proof {
            assert(keys.take(j + 1).drop_last() =~= keys.take(j as int));
            assert(keys.take(j + 1).last() == activity_keys@[j as int]@);
            assert(tallies@[j as int].selected == tally(sections@, award@, section_index, Some(activity_keys@[j as int]@), false));
            assert(completions_of(sections@, award@, section_index, keys.take(j + 1)) == completions + tallies@[j as int].completed);
            lemma_tally_bounded(sections@, award@, section_index, Some(activity_keys@[j as int]@), true);
            assert((j + 1) * n == j * n + n) by (nonlinear_arith);
            assert(j * n <= usize::MAX * usize::MAX) by (nonlinear_arith)
                requires
                    j <= usize::MAX,
                    n <= usize::MAX,
            ;
            assert(usize::MAX * usize::MAX + usize::MAX < u128::MAX) by (nonlinear_arith)
                requires
                    usize::MAX <= u64::MAX,
            ;
        }
        completions = completions + tallies[j].completed as u128;
        j = j + 1;
    }
    assert(keys.take(tallies@.len() as int) =~= keys);
    SectionStats { total, tallies, completions }
}

/// Whether `sections` are read from the records `c` under the distinct keys
/// `ks`, and, when `complete`, every record of a section is among them.
pub open spec fn sections_read(c: Map<Seq<u8>, Seq<u8>>, ks: Seq<Seq<u8>>, sections: Seq<Section>, complete: bool) -> bool {
    &&& ks.len() == sections.len()
    &&& forall|i: int, j: int| 0 <= i < j < ks.len() ==> #[trigger] ks[i] != #[trigger] ks[j]
    &&& forall|i: int| 0 <= i < ks.len() ==> #[trigger] c.contains_key(ks[i]) && decodes_to::<Section>(c[ks[i]], sections[i]@)
    &&& complete ==> forall|k: Seq<u8>|
        #[trigger] c.contains_key(k) && is_record_bytes::<Section>(c[k]) ==> ks.contains(k)
}

impl SharedData {
    /// The stored sections that can be read, each once, and whether the store
    /// yielded every entry, in which case no section is left out.
    pub fn stored_sections(&self) -> (res: (Vec<Section>, bool))
        ensures
            exists|ks: Seq<Seq<u8>>| #[trigger] sections_read(self.section_db.contents(), ks, res.0@, res.1),
    {
        let (mut entries, complete) = self.section_db.entries();
        let ghost all = entries@;
        let ghost c = self.section_db.contents();
        let mut out: Vec<Section> = Vec::new();
        let ghost mut ks: Seq<Seq<u8>> = Seq::empty();
        let ghost mut idx: Seq<int> = Seq::empty();
        let ghost mut n: int = 0;
        while entries.len() > 0
            invariant
                0 <= n <= all.len(),
                entries@ == all.skip(n),
                c == self.section_db.contents(),
                forall|a: int|
                    0 <= a < all.len() ==> #[trigger] c.contains_key(all[a].0@) && match all[a].1 {
                        Some(v) => forall|r: SectionView|
                            Section::valid_view(r) && #[trigger] record_bytes::<Section>(r) == c[all[a].0@] ==> v@ == r,
                        None => !is_record_bytes::<Section>(c[all[a].0@]),
                    },
                forall|a: int, b: int| 0 <= a < b < all.len() ==> #[trigger] all[a].0@ != #[trigger] all[b].0@,
                ks.len() == out@.len(),
                idx.len() == out@.len(),
                forall|i: int| 0 <= i < out@.len() ==> 0 <= #[trigger] idx[i] < n && ks[i] == all[idx[i]].0@,
                forall|i: int, j: int| 0 <= i < j < out@.len() ==> #[trigger] idx[i] < #[trigger] idx[j],
                forall|i: int| 0 <= i < out@.len() ==> #[trigger] c.contains_key(ks[i]) && decodes_to::<Section>(c[ks[i]], out@[i]@),
                forall|a: int| 0 <= a < n && #[trigger] all[a].1 is Some ==> ks.contains(all[a].0@),
            decreases entries@.len(),
        {
            let (key, value) = entries.remove(0);
            proof {
                assert(all.skip(n)[0] == all[n]);
            }
            let ghost old_ks = ks;
            let ghost old_idx = idx;
            let ghost before = out@;
            if let Some(section) = value {
                out.push(section);
                proof {
                    ks = ks.push(key@);
                    idx = idx.push(n);
                    assert(ks[ks.len() - 1] == all[n].0@);
                    assert forall|i: int| 0 <= i < out@.len() implies #[trigger] c.contains_key(ks[i]) && decodes_to::<Section>(
                        c[ks[i]],
                        out@[i]@,
                    ) by {
                        if i < before.len() {
                            assert(out@[i] == before[i]);
                            assert(ks[i] == old_ks[i]);
                        }
                    }
                    assert forall|i: int| 0 <= i < out@.len() implies 0 <= #[trigger] idx[i] < n + 1 && ks[i] == all[idx[i]].0@ by {
                        if i < before.len() {
                            assert(ks[i] == old_ks[i]);
                            assert(idx[i] == old_idx[i]);
                        }
                    }
                    assert forall|i: int, j: int| 0 <= i < j < out@.len() implies #[trigger] idx[i] < #[trigger] idx[j] by {
                        assert(idx[i] == old_idx[i]);
                        if j < before.len() {
                            assert(idx[j] == old_idx[j]);
                        }
                    }
                    assert forall|a: int| 0 <= a < n + 1 && #[trigger] all[a].1 is Some implies ks.contains(all[a].0@) by {
                        if a == n {
                            assert(ks[ks.len() - 1] == all[a].0@);
                        } else {
                            let i = choose|i: int| 0 <= i < old_ks.len() && old_ks[i] == all[a].0@;
                            assert(ks[i] == old_ks[i]);
                        }
                    }
                }
            }
            proof {
                assert(entries@ =~= all.skip(n + 1));
                n = n + 1;
            }
        }
        proof {
            assert forall|i: int, j: int| 0 <= i < j < ks.len() implies #[trigger] ks[i] != #[trigger] ks[j] by {
                assert(idx[i] < idx[j]);
                assert(all[idx[i]].0@ != all[idx[j]].0@);
            }
            if complete {
                assert forall|k: Seq<u8>| #[trigger] c.contains_key(k) && is_record_bytes::<Section>(c[k]) implies ks.contains(k) by {
                    let a = choose|a: int| 0 <= a < all.len() && all[a].0@ == k;
                    assert(c.contains_key(all[a].0@));
                    assert(all[a].1 is Some);
                }
            }
            assert(sections_read(c, ks, out@, complete));
        }
        let res = (out, complete);
        proof {
            assert(res.0@ == out@);
            assert(sections_read(self.section_db.contents(), ks, res.0@, res.1));
        }
        res
    }
}

} // verus!

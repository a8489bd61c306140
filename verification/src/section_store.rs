use vstd::prelude::*;
use crate::codec::{Fields, Record, lists};
use crate::db::Database;
use crate::keys::{SectionKey, UserKey};
use crate::section::{FormEntryData, Section, SectionState, texts};
use crate::user::flag;

verus! {

/// The model of a [`FormEntryData`].
pub enum FormEntryDataView {
    Text(Seq<char>),
    Index(usize),
    Indices(Seq<usize>),
}

impl View for FormEntryData {
    type V = FormEntryDataView;

    open spec fn view(&self) -> FormEntryDataView {
        match self {
            FormEntryData::Text(t) => FormEntryDataView::Text(t@),
            FormEntryData::Index(i) => FormEntryDataView::Index(*i),
            FormEntryData::Indices(v) => FormEntryDataView::Indices(v@),
        }
    }
}

/// The model of a [`SectionState`].
pub enum SectionStateView {
    InProgress,
    Rejected(Seq<char>),
    InReview(u128),
    Completed,
}

impl View for SectionState {
    type V = SectionStateView;

    open spec fn view(&self) -> SectionStateView {
        match self {
            SectionState::InProgress => SectionStateView::InProgress,
            SectionState::Rejected(r) => SectionStateView::Rejected(r@),
            SectionState::InReview(t) => SectionStateView::InReview(*t),
            SectionState::Completed => SectionStateView::Completed,
        }
    }
}

impl SectionStateView {
    /// The state's name as shown to users.
    pub open spec fn name(self) -> Seq<char> {
        match self {
            SectionStateView::InProgress => "In Progress"@,
            SectionStateView::Rejected(_) => "Not Approved"@,
            SectionStateView::InReview(_) => "In Review"@,
            SectionStateView::Completed => "Completed"@,
        }
    }

    /// The style class of the state.
    pub open spec fn css_class_text(self) -> Seq<char> {
        match self {
            SectionStateView::InProgress => "state-in-progress"@,
            SectionStateView::Rejected(_) => "state-rejected"@,
            SectionStateView::InReview(_) => "state-in-review"@,
            SectionStateView::Completed => "state-completed"@,
        }
    }
}

/// The model of a [`Section`].
pub struct SectionView {
    pub section_index: usize,
    pub award: Seq<char>,
    pub activity: Seq<char>,
    pub user_id: UserKey,
    pub plan: Seq<char>,
    pub reflection: Seq<char>,
    pub input_data: Seq<(Seq<char>, FormEntryDataView)>,
    pub state: SectionStateView,
    pub outstanding: bool,
}

/// The model of an answer to an input item: its name and data.
pub open spec fn input_view(e: (String, FormEntryData)) -> (Seq<char>, FormEntryDataView) {
    (e.0@, e.1@)
}

impl View for Section {
    type V = SectionView;

    open spec fn view(&self) -> SectionView {
        SectionView {
            section_index: self.section_index,
            award: self.award@,
            activity: self.activity@,
            user_id: self.user_id,
            plan: self.plan@,
            reflection: self.reflection@,
            input_data: self.input_data@.map_values(|e: (String, FormEntryData)| input_view(e)),
            state: self.state@,
            outstanding: self.outstanding,
        }
    }
}

/// The largest `usize`, as a 128-bit number.
pub open spec fn usize_limit() -> u128 {
    usize::MAX as u128
}

/// The numbers of a list of indices.
pub open spec fn index_nums(v: Seq<usize>) -> Seq<u128> {
    v.map_values(|x: usize| x as u128)
}

/// The numbers an answer is stored as: a tag, then its index or indices.
pub open spec fn entry_nums(d: FormEntryDataView) -> Seq<u128> {
    match d {
        FormEntryDataView::Text(_) => seq![0],
        FormEntryDataView::Index(i) => seq![1, i as u128],
        FormEntryDataView::Indices(v) => seq![2u128] + index_nums(v),
    }
}

/// The text an answer is stored with: its text, or nothing.
pub open spec fn entry_text(d: FormEntryDataView) -> Seq<char> {
    match d {
        FormEntryDataView::Text(t) => t,
        _ => Seq::empty(),
    }
}

/// The answer that numbers and a text denote, if any.
pub open spec fn entry_from(l: Seq<u128>, t: Seq<char>) -> Option<FormEntryDataView> {
    if l.len() == 1 && l[0] == 0 {
        Some(FormEntryDataView::Text(t))
    } else if l.len() == 2 && l[0] == 1 && l[1] <= usize_limit() {
        Some(FormEntryDataView::Index(l[1] as usize))
    } else if l.len() >= 1 && l[0] == 2 && (forall|j: int| 1 <= j < l.len() ==> #[trigger] l[j] <= usize_limit()) {
        Some(FormEntryDataView::Indices(l.skip(1).map_values(|x: u128| x as usize)))
    } else {
        None
    }
}

/// The tag and time a state is stored as.
pub open spec fn state_nums(s: SectionStateView) -> (u128, u128) {
    match s {
        SectionStateView::InProgress => (0, 0),
        SectionStateView::Rejected(_) => (1, 0),
        SectionStateView::InReview(t) => (2, t),
        SectionStateView::Completed => (3, 0),
    }
}

/// The text a state is stored with: the reason of a rejection, or nothing.
pub open spec fn state_text(s: SectionStateView) -> Seq<char> {
    match s {
        SectionStateView::Rejected(r) => r,
        _ => Seq::empty(),
    }
}

/// The state that a tag, time and text denote, if any.
pub open spec fn state_from(tag: u128, time: u128, t: Seq<char>) -> Option<SectionStateView> {
    if tag == 0 {
        Some(SectionStateView::InProgress)
    } else if tag == 1 {
        Some(SectionStateView::Rejected(t))
    } else if tag == 2 {
        Some(SectionStateView::InReview(time))
    } else if tag == 3 {
        Some(SectionStateView::Completed)
    } else {
        None
    }
}

/// Whether each stored answer can be read.
pub open spec fn entries_readable(ts: Seq<Seq<char>>, ls: Seq<Seq<u128>>) -> bool {
    forall|i: int| 0 <= i < ls.len() ==> #[trigger] entry_from(ls[i], ts[5 + ls.len() + i]) is Some
}

impl Record for Section {
    open spec fn field_values(v: SectionView) -> Fields {
        let n = v.input_data.len();
        (
            seq![
                v.section_index as u128,
                v.user_id.0,
                state_nums(v.state).0,
                state_nums(v.state).1,
                flag(v.outstanding),
            ],
            seq![v.award, v.activity, v.plan, v.reflection, state_text(v.state)] + Seq::new(
                n,
                |i: int| v.input_data[i].0,
            ) + Seq::new(n, |i: int| entry_text(v.input_data[i].1)),
            Seq::new(n, |i: int| entry_nums(v.input_data[i].1)),
        )
    }

    open spec fn from_field_values(f: Fields) -> Option<SectionView> {
        let (nums, ts, ls) = f;
        let n = ls.len();
        if nums.len() == 5 && ts.len() == 5 + 2 * n && nums[0] <= usize_limit() && nums[4] <= 1 && state_from(
            nums[2],
            nums[3],
            ts[4],
        ) is Some && entries_readable(ts, ls) {
            Some(
                SectionView {
                    section_index: nums[0] as usize,
                    award: ts[0],
                    activity: ts[1],
                    user_id: UserKey(nums[1]),
                    plan: ts[2],
                    reflection: ts[3],
                    input_data: Seq::new(
                        n,
                        |i: int| (ts[5 + i], entry_from(ls[i], ts[5 + n + i])->Some_0),
                    ),
                    state: state_from(nums[2], nums[3], ts[4])->Some_0,
                    outstanding: nums[4] == 1,
                },
            )
        } else {
            None
        }
    }

    open spec fn valid_view(v: SectionView) -> bool {
        true
    }

    proof fn lemma_valid_view(&self) {
    }

    proof fn lemma_fields_round_trip(v: SectionView) {
        let (nums, ts, ls) = Self::field_values(v);
        let n = v.input_data.len();
        assert forall|i: int| 0 <= i < n implies #[trigger] entry_from(ls[i], ts[5 + n + i]) == Some(
            v.input_data[i].1,
        ) by {
            assert(ts[5 + n + i] == entry_text(v.input_data[i].1));
            match v.input_data[i].1 {
                FormEntryDataView::Indices(x) => {
                    let l = ls[i];
                    assert(l.skip(1) =~= index_nums(x));
                    assert(l.skip(1).map_values(|y: u128| y as usize) =~= x);
                },
                _ => {},
            }
        }
        assert(entries_readable(ts, ls));
        let back = Self::from_field_values((nums, ts, ls))->Some_0;
        assert(back.input_data =~= v.input_data) by {
            assert forall|i: int| 0 <= i < n implies back.input_data[i] == v.input_data[i] by {
                assert(ts[5 + i] == v.input_data[i].0);
            }
        }
    }

    fn to_fields(&self) -> (res: (Vec<u128>, Vec<String>, Vec<Vec<u128>>)) {
        let mut nums: Vec<u128> = Vec::new();
        nums.push(self.section_index as u128);
        nums.push(self.user_id.0);
        let (tag, time): (u128, u128) = match self.state {
            SectionState::InProgress => (0, 0),
            SectionState::Rejected(_) => (1, 0),
            SectionState::InReview(t) => (2, t),
            SectionState::Completed => (3, 0),
        };
        nums.push(tag);
        nums.push(time);
        nums.push(if self.outstanding { 1 } else { 0 });
        let mut ts: Vec<String> = Vec::new();
        ts.push(self.award.clone());
        ts.push(self.activity.clone());
        ts.push(self.plan.clone());
        ts.push(self.reflection.clone());
        ts.push(
            match &self.state {
                SectionState::Rejected(r) => r.clone(),
                _ => String::new(),
            },
        );
        let ghost v = self@;
        let ghost n = self.input_data@.len();
        assert(texts(ts@) =~= seq![v.award, v.activity, v.plan, v.reflection, state_text(v.state)]);
        let mut i: usize = 0;
        while i < self.input_data.len()
            invariant
                v == self@,
                n == self.input_data@.len(),
                i <= n,
                texts(ts@) =~= seq![v.award, v.activity, v.plan, v.reflection, state_text(v.state)]
                    + Seq::new(i as nat, |j: int| v.input_data[j].0),
            decreases n - i,
        {
            let ghost before = ts@;
            ts.push(self.input_data[i].0.clone());
            proof {
                assert(texts(ts@) =~= texts(before).push(self.input_data@[i as int].0@));
                assert(v.input_data[i as int].0 == self.input_data@[i as int].0@);
                assert(Seq::new((i + 1) as nat, |j: int| v.input_data[j].0) =~= Seq::new(
                    i as nat,
                    |j: int| v.input_data[j].0,
                ).push(v.input_data[i as int].0));
            }
            i = i + 1;
        }
        let mut ls: Vec<Vec<u128>> = Vec::new();
        let mut k: usize = 0;
        while k < self.input_data.len()
            invariant
                v == self@,
                n == self.input_data@.len(),
                k <= n,
                texts(ts@) =~= seq![v.award, v.activity, v.plan, v.reflection, state_text(v.state)]
                    + Seq::new(n, |j: int| v.input_data[j].0) + Seq::new(
                    k as nat,
                    |j: int| entry_text(v.input_data[j].1),
                ),
                lists(ls@) =~= Seq::new(k as nat, |j: int| entry_nums(v.input_data[j].1)),
            decreases n - k,
        {
            let (t, l) = entry_fields(&self.input_data[k].1);
            let ghost before_ts = ts@;
            let ghost before_ls = ls@;
            let ghost tv = t@;
            let ghost lv = l@;
            ts.push(t);
            ls.push(l);
            proof {
                assert(texts(ts@) =~= texts(before_ts).push(tv));
                assert(lists(ls@) =~= lists(before_ls).push(lv));
                assert(v.input_data[k as int].1 == self.input_data@[k as int].1@);
                assert(Seq::new((k + 1) as nat, |j: int| entry_text(v.input_data[j].1)) =~= Seq::new(
                    k as nat,
                    |j: int| entry_text(v.input_data[j].1),
                ).push(entry_text(v.input_data[k as int].1)));
                assert(Seq::new((k + 1) as nat, |j: int| entry_nums(v.input_data[j].1)) =~= Seq::new(
                    k as nat,
                    |j: int| entry_nums(v.input_data[j].1),
                ).push(entry_nums(v.input_data[k as int].1)));
            }
            k = k + 1;
        }
        assert(nums@ =~= Self::field_values(self@).0);
        (nums, ts, ls)
    }

    fn from_fields(nums: &Vec<u128>, ts: &Vec<String>, ls: &Vec<Vec<u128>>) -> (res: Option<Self>) {
        let n = ls.len();
        let ghost tv = texts(ts@);
        let ghost lv = lists(ls@);
        assert(tv.len() == ts@.len() && lv.len() == n);
        let tl = ts.len();
        if nums.len() != 5 || n > (usize::MAX - 5) / 2 {
            assert(tl <= usize::MAX);
            return None;
        }
        if ts.len() != 5 + 2 * n || nums[0] > usize::MAX as u128 || nums[4] > 1 || nums[2] > 3 {
            return None;
        }
        let state = if nums[2] == 0 {
            SectionState::InProgress
        } else if nums[2] == 1 {
            SectionState::Rejected(ts[4].clone())
        } else if nums[2] == 2 {
            SectionState::InReview(nums[3])
        } else {
            SectionState::Completed
        };
        assert(state_from(nums@[2], nums@[3], tv[4]) == Some(state@));
        let mut input_data: Vec<(String, FormEntryData)> = Vec::new();
        let mut i: usize = 0;
        while i < n
            invariant
                n == ls@.len(),
                n <= (usize::MAX - 5) / 2,
                ts@.len() == 5 + 2 * n,
                tv == texts(ts@),
                lv == lists(ls@),
                i <= n,
                forall|j: int| 0 <= j < i ==> #[trigger] entry_from(lv[j], tv[5 + n + j]) is Some,
                input_data@.len() == i,
                forall|j: int|
                    0 <= j < i ==> #[trigger] input_view(input_data@[j]) == (
                        tv[5 + j],
                        entry_from(lv[j], tv[5 + n + j])->Some_0,
                    ),
            decreases n - i,
        {
            assert(lv[i as int] == ls@[i as int]@);
            assert(tv[5 + n + i] == ts@[5 + n + i]@);
            match entry_from_fields(&ls[i], &ts[5 + n + i]) {
                Some(d) => {
                    input_data.push((ts[5 + i].clone(), d));
                },
                None => {
                    assert(!entries_readable(tv, lv)) by {
                        assert(entry_from(lv[i as int], tv[5 + lv.len() + i]) is None);
                    }
                    return None;
                },
            }
            i = i + 1;
        }
        let res = Section {
            section_index: nums[0] as usize,
            award: ts[0].clone(),
            activity: ts[1].clone(),
            user_id: UserKey(nums[1]),
            plan: ts[2].clone(),
            reflection: ts[3].clone(),
            input_data,
            state,
            outstanding: nums[4] == 1,
        };
        proof {
            let f = (nums@, tv, lv);
            assert(entries_readable(tv, lv));
            let expect = Self::from_field_values(f)->Some_0;
            assert(res@.input_data =~= expect.input_data) by {
                assert forall|j: int| 0 <= j < n implies res@.input_data[j] == expect.input_data[j] by {
                    assert(input_view(res.input_data@[j]) == res@.input_data[j]);
                }
            }
        }
        Some(res)
    }
}

/// The text and numbers an answer is stored as.
fn entry_fields(d: &FormEntryData) -> (res: (String, Vec<u128>))
    ensures
        res.0@ == entry_text(d@),
        res.1@ == entry_nums(d@),
{
    match d {
        FormEntryData::Text(t) => {
            let mut l: Vec<u128> = Vec::new();
            l.push(0);
            assert(l@ =~= seq![0u128]);
            (t.clone(), l)
        },
        FormEntryData::Index(i) => {
            let mut l: Vec<u128> = Vec::new();
            l.push(1);
            l.push(*i as u128);
            assert(l@ =~= seq![1u128, *i as u128]);
            (String::new(), l)
        },
        FormEntryData::Indices(v) => {
            let mut l: Vec<u128> = Vec::new();
            l.push(2);
            let mut j: usize = 0;
            while j < v.len()
                invariant
                    j <= v@.len(),
                    l@ =~= seq![2u128] + index_nums(v@.take(j as int)),
                decreases v@.len() - j,
            {
                l.push(v[j] as u128);
                assert(v@.take(j + 1) =~= v@.take(j as int).push(v@[j as int]));
                j = j + 1;
            }
            assert(v@.take(v@.len() as int) =~= v@);
            (String::new(), l)
        },
    }
}

/// The answer that numbers and a text denote, if any.
fn entry_from_fields(l: &Vec<u128>, t: &String) -> (res: Option<FormEntryData>)
    ensures
        match entry_from(l@, t@) {
            Some(d) => res is Some && res->Some_0@ == d,
            None => res is None,
        },
{
    if l.len() == 1 && l[0] == 0 {
        Some(FormEntryData::Text(t.clone()))
    } else if l.len() == 2 && l[0] == 1 && l[1] <= usize::MAX as u128 {
        Some(FormEntryData::Index(l[1] as usize))
    } else if l.len() >= 1 && l[0] == 2 {
        let mut v: Vec<usize> = Vec::new();
        let mut j: usize = 1;
        while j < l.len()
            invariant
                1 <= j <= l@.len(),
                l@.len() >= 1,
                forall|q: int| 1 <= q < j ==> #[trigger] l@[q] <= usize_limit(),
                v@ =~= l@.subrange(1, j as int).map_values(|x: u128| x as usize),
            decreases l@.len() - j,
        {
            if l[j] > usize::MAX as u128 {
                return None;
            }
            v.push(l[j] as usize);
            assert(l@.subrange(1, j + 1) =~= l@.subrange(1, j as int).push(l@[j as int]));
            j = j + 1;
        }
        assert(l@.subrange(1, l@.len() as int) =~= l@.skip(1));
        Some(FormEntryData::Indices(v))
    } else {
        None
    }
}

/// The pupils' sections, by key.
pub type SectionDb = Database<SectionKey, Section>;

} // verus!

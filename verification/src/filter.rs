//! The name filter: a set of function and method names read from an external
//! line-oriented list. Pure data; the only behavior is membership testing.
//!
//! The list format has no escaping and no comments: blank lines (empty or
//! whitespace-only) are skipped, every other line is trimmed of surrounding
//! whitespace and inserted verbatim. Duplicates collapse silently under set
//! semantics. An absent filter argument yields the empty set.

use vstd::prelude::*;
use crate::model::FilterPolicy;
use vstd::string::StrSliceExecFns;

verus! {

/// Whitespace as the trimming step understands it.
pub open spec fn is_ws(c: char) -> bool {
    c == ' ' || c == '\t' || c == '\r' || c == '\n'
}

/// Length of the whitespace prefix of `s`.
pub open spec fn lead_ws(s: Seq<char>) -> nat
    decreases s.len(),
{
    if s.len() == 0 {
        0
    } else if is_ws(s[0]) {
        (1 + lead_ws(s.drop_first())) as nat
    } else {
        0
    }
}

/// Length of the whitespace suffix of `s`.
pub open spec fn trail_ws(s: Seq<char>) -> nat
    decreases s.len(),
{
    if s.len() == 0 {
        0
    } else if is_ws(s.last()) {
        (1 + trail_ws(s.drop_last())) as nat
    } else {
        0
    }
}

/// `s` with surrounding whitespace removed; empty when `s` is all
/// whitespace.
pub open spec fn spec_trim(s: Seq<char>) -> Seq<char> {
    if lead_ws(s) == s.len() {
        Seq::empty()
    } else {
        s.subrange(lead_ws(s) as int, s.len() - trail_ws(s))
    }
}

proof fn lemma_lead_ws(s: Seq<char>, a: int)
    requires
        0 <= a <= s.len(),
        forall|k: int| 0 <= k < a ==> is_ws(s[k]),
        a < s.len() ==> !is_ws(s[a]),
    ensures
        lead_ws(s) == a,
    decreases a,
{
    if a == 0 {
    } else {
        assert(is_ws(s[0]));
        lemma_lead_ws(s.drop_first(), a - 1);
    }
}

proof fn lemma_trail_ws(s: Seq<char>, b: int)
    requires
        0 <= b <= s.len(),
        forall|k: int| b <= k < s.len() ==> is_ws(s[k]),
        b > 0 ==> !is_ws(s[b - 1]),
    ensures
        trail_ws(s) == s.len() - b,
    decreases s.len() - b,
{
    if b == s.len() {
    } else {
        assert(is_ws(s.last()));
        lemma_trail_ws(s.drop_last(), b);
    }
}

/// Remove surrounding whitespace from one line of the filter list.
pub fn trim_line(s: &str) -> (r: String)
    ensures
        r@ == spec_trim(s@),
{
    let n = s.unicode_len();
    let mut a: usize = 0;
    while a < n && char_is_ws(s.get_char(a))
        invariant
            n == s@.len(),
            0 <= a <= n,
            forall|k: int| 0 <= k < a ==> is_ws(s@[k]),
        decreases n - a,
    {
        a = a + 1;
    }
    proof {
        lemma_lead_ws(s@, a as int);
    }
    if a == n {
        return String::new();
    }
    let mut b: usize = n;
    while b > a && char_is_ws(s.get_char(b - 1))
        invariant
            n == s@.len(),
            a <= b <= n,
            a < n,
            !is_ws(s@[a as int]),
            forall|k: int| b <= k < n ==> is_ws(s@[k]),
        decreases b,
    {
        b = b - 1;
    }
    proof {
        lemma_trail_ws(s@, b as int);
    }
    s.substring_char(a, b).to_owned()
}

fn char_is_ws(c: char) -> (r: bool)
    ensures
        r == is_ws(c),
{
    c == ' ' || c == '\t' || c == '\r' || c == '\n'
}

/// The entries that a sequence of filter-list lines yields, in order:
/// trimmed lines, blanks dropped.
pub open spec fn filter_entries(ls: Seq<Seq<char>>) -> Seq<Seq<char>>
    decreases ls.len(),
{
    if ls.len() == 0 {
        Seq::empty()
    } else {
        let rest = filter_entries(ls.drop_last());
        let t = spec_trim(ls.last());
        if t.len() == 0 {
            rest
        } else {
            rest.push(t)
        }
    }
}

/// The set of names a filter list denotes.
pub open spec fn spec_filter_of(ls: Seq<Seq<char>>) -> Set<Seq<char>> {
    filter_entries(ls).to_set()
}

/// A set of function/method names; insertion order is irrelevant and
/// membership is the only observable.
pub struct FilterSet {
    items: Vec<String>,
}

impl View for FilterSet {
    type V = Set<Seq<char>>;

    closed spec fn view(&self) -> Set<Seq<char>> {
        self.items@.map_values(|s: String| s@).to_set()
    }
}

impl FilterSet {
    /// The empty filter, used when no filter list was supplied.
    pub fn new() -> (r: FilterSet)
        ensures
            r@ == Set::<Seq<char>>::empty(),
    {
        let r = FilterSet { items: Vec::new() };
        proof {
            assert(r@ =~= Set::<Seq<char>>::empty());
        }
        r
    }

    /// Build the filter from the lines of the external list.
    pub fn from_lines(lines: &Vec<String>) -> (r: FilterSet)
        ensures
            r@ == spec_filter_of(lines@.map_values(|l: String| l@)),
    {
        let ghost ls = lines@.map_values(|l: String| l@);
        let mut items: Vec<String> = Vec::new();
        for i in 0..lines.len()
            invariant
                ls == lines@.map_values(|l: String| l@),
                items@.map_values(|s: String| s@) == filter_entries(ls.take(i as int)),
        {
            let t = trim_line(lines[i].as_str());
            proof {
                assert(ls.take(i + 1 as int).drop_last() =~= ls.take(i as int));
                assert(ls.take(i + 1 as int).last() == lines@[i as int]@);
            }
            if !t.as_str().is_empty() {
                items.push(t);
                proof {
                    assert(items@.map_values(|s: String| s@) =~= filter_entries(
                        ls.take(i as int),
                    ).push(spec_trim(ls[i as int])));
                }
            }
        }
        proof {
            assert(ls.take(lines@.len() as int) =~= ls);
        }
        FilterSet { items }
    }

    /// Membership test: is `name` one of the listed names?
    pub fn contains(&self, name: &String) -> (r: bool)
        ensures
            r == self@.contains(name@),
    {
        let ghost views = self.items@.map_values(|s: String| s@);
        for i in 0..self.items.len()
            invariant
                views == self.items@.map_values(|s: String| s@),
                forall|k: int| 0 <= k < i ==> views[k] != name@,
        {
            if self.items[i].eq(name) {
                assert(views[i as int] == name@);
                assert(views.contains(name@));
                return true;
            }
        }
        assert(!views.contains(name@));
        false
    }

    /// Whether `name` passes the filter as a selection root, under the given
    /// policy direction.
    pub open spec fn spec_passes(fs: Set<Seq<char>>, policy: FilterPolicy, name: Seq<char>) -> bool {
        match policy {
            FilterPolicy::Exclude => !fs.contains(name),
            FilterPolicy::Include => fs.contains(name),
        }
    }

    /// Apply the configured filter direction to one name.
    pub fn passes(&self, policy: FilterPolicy, name: &String) -> (r: bool)
        ensures
            r == FilterSet::spec_passes(self@, policy, name@),
    {
        let c = self.contains(name);
        match policy {
            FilterPolicy::Exclude => !c,
            FilterPolicy::Include => c,
        }
    }
}

} // verus!

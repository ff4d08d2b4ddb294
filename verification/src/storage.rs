//! Where optimisation runs are stored: the file a run is saved under, and
//! which files of the storage directory are runs.
use vstd::prelude::*;
use vstd::string::*;
use crate::http_client::views;
use crate::source::{lex_lt, lemma_lex_lt_irreflexive};

verus! {

broadcast use vstd::seq_lib::group_to_multiset_ensures;

/// The position of the last `c` in `s`, or -1.
pub open spec fn last_index_of(s: Seq<char>, c: char) -> int
    decreases s.len(),
{
    if s.len() == 0 {
        -1
    } else if s.last() == c {
        s.len() - 1
    } else {
        last_index_of(s.drop_last(), c)
    }
}

/// The run id a file name stands for: the stem of a name whose extension
/// is `json`. A name whose only dot leads it (such as `.json`) has no
/// extension.
pub open spec fn json_stem(name: Seq<char>) -> Option<Seq<char>> {
    let p = last_index_of(name, '.');
    if p > 0 && name.skip(p + 1) == "json"@ {
        Some(name.take(p))
    } else {
        None
    }
}

/// The run ids among `names`, in their order.
pub open spec fn json_stems(names: Seq<Seq<char>>) -> Seq<Seq<char>>
    decreases names.len(),
{
    if names.len() == 0 {
        Seq::empty()
    } else {
        let rest = json_stems(names.drop_last());
        match json_stem(names.last()) {
            Some(s) => rest.push(s),
            None => rest,
        }
    }
}

/// No element precedes an earlier one.
pub open spec fn sorted_text(s: Seq<Seq<char>>) -> bool {
    forall|i: int, j: int| 0 <= i < j < s.len() ==> !lex_lt(#[trigger] s[j], #[trigger] s[i])
}

proof fn lemma_lex_lt_asymmetric(a: Seq<char>, b: Seq<char>)
    ensures
        lex_lt(a, b) ==> !lex_lt(b, a),
    decreases a.len(),
{
    if a.len() > 0 && b.len() > 0 && a[0] == b[0] {
        lemma_lex_lt_asymmetric(a.drop_first(), b.drop_first());
    }
}

proof fn lemma_lex_lt_transitive(a: Seq<char>, b: Seq<char>, c: Seq<char>)
    ensures
        lex_lt(a, b) && lex_lt(b, c) ==> lex_lt(a, c),
    decreases a.len(),
{
    if a.len() > 0 && b.len() > 0 && c.len() > 0 {
        lemma_lex_lt_transitive(a.drop_first(), b.drop_first(), c.drop_first());
    }
}

proof fn lemma_lex_lt_skip(a: Seq<char>, b: Seq<char>, i: int)
    requires
        0 <= i <= a.len(),
        i <= b.len(),
        a.take(i) == b.take(i),
    ensures
        lex_lt(a, b) == lex_lt(a.skip(i), b.skip(i)),
    decreases i,
{
    if i > 0 {
        assert(a[0] == a.take(i)[0]);
        assert(b[0] == b.take(i)[0]);
        assert(a.drop_first().take(i - 1) =~= a.take(i).drop_first());
        assert(b.drop_first().take(i - 1) =~= b.take(i).drop_first());
        lemma_lex_lt_skip(a.drop_first(), b.drop_first(), i - 1);
        assert(a.drop_first().skip(i - 1) =~= a.skip(i));
        assert(b.drop_first().skip(i - 1) =~= b.skip(i));
    } else {
        assert(a.skip(0) =~= a);
        assert(b.skip(0) =~= b);
    }
}

/// Whether `a` comes strictly before `b` in character order.
fn text_lt(a: &str, b: &str) -> (r: bool)
    ensures
        r == lex_lt(a@, b@),
{
    let n = a.unicode_len();
    let m = b.unicode_len();
    let mut i: usize = 0;
    while i < n && i < m
        invariant
            n == a@.len(),
            m == b@.len(),
            i <= n,
            i <= m,
            a@.take(i as int) == b@.take(i as int),
        decreases n - i,
    {
        let x = a.get_char(i);
        let y = b.get_char(i);
        if x != y {
            proof {
                lemma_lex_lt_skip(a@, b@, i as int);
                assert(a@.skip(i as int)[0] == x);
                assert(b@.skip(i as int)[0] == y);
            }
            return (x as u32) < (y as u32);
        }
        assert(a@.take(i + 1) =~= a@.take(i as int).push(x));
        assert(b@.take(i + 1) =~= b@.take(i as int).push(y));
        i = i + 1;
    }
    proof {
        lemma_lex_lt_skip(a@, b@, i as int);
    }
    i == n && i < m
}

/// Inserts `x` into the sorted `v` after every element not after it.
fn insert_sorted(v: &mut Vec<String>, x: String)
    requires
        sorted_text(views(old(v)@)),
    ensures
        sorted_text(views(final(v)@)),
        views(final(v)@).to_multiset() == views(old(v)@).to_multiset().insert(x@),
{
    let n = v.len();
    let mut k: usize = 0;
    while k < n && !text_lt(x.as_str(), v[k].as_str())
        invariant
            n == v@.len(),
            k <= n,
            forall|i: int| 0 <= i < k ==> !lex_lt(x@, #[trigger] v@[i]@),
        decreases n - k,
    {
        k = k + 1;
    }
    let ghost before = views(v@);
    let ghost xv = x@;
    v.insert(k, x);
    proof {
        assert(views(v@) =~= before.insert(k as int, xv));
        assert forall|i: int, j: int| 0 <= i < j < views(v@).len() implies !lex_lt(
            #[trigger] views(v@)[j],
            #[trigger] views(v@)[i],
        ) by {
            let w = views(v@);
            if j < k {
                assert(w[i] == before[i] && w[j] == before[j]);
            } else if j == k {
                assert(w[i] == before[i]);
            } else if i < k {
                assert(w[i] == before[i] && w[j] == before[j - 1]);
            } else if i == k {
                assert(w[j] == before[j - 1]);
                assert(lex_lt(xv, before[k as int]));
                lemma_lex_lt_asymmetric(xv, before[k as int]);
                lemma_lex_lt_transitive(before[j - 1], xv, before[k as int]);
            } else {
                assert(w[i] == before[i - 1] && w[j] == before[j - 1]);
            }
        }
    }
}

/// The position of the last `.` in `s`.
fn last_dot(s: &str) -> (r: Option<usize>)
    ensures
        match r {
            Some(p) => p == last_index_of(s@, '.') && p < s@.len(),
            None => last_index_of(s@, '.') == -1,
        },
{
    let n = s.unicode_len();
    let mut i: usize = n;
    assert(s@.take(n as int) =~= s@);
    while i > 0
        invariant
            i <= n,
            n == s@.len(),
            last_index_of(s@, '.') == last_index_of(s@.take(i as int), '.'),
        decreases i,
    {
        let ghost t = s@.take(i as int);
        assert(t.drop_last() =~= s@.take(i - 1));
        if s.get_char(i - 1) == '.' {
            return Some(i - 1);
        }
        i = i - 1;
    }
    None
}

/// The run id a file name stands for, if it names a run.
pub fn json_stem_of(name: &str) -> (r: Option<String>)
    ensures
        match r {
            Some(s) => json_stem(name@) == Some(s@),
            None => json_stem(name@) is None,
        },
{
    proof {
        reveal_strlit("json");
    }
    let n = name.unicode_len();
    match last_dot(name) {
        Some(p) => {
            if p == 0 {
                return None;
            }
            let ext = name.substring_char(p + 1, n);
            assert(ext@ =~= name@.skip(p + 1));
            if crate::text::str_eq(ext, "json") {
                let stem = name.substring_char(0, p);
                assert(stem@ =~= name@.take(p as int));
                Some(stem.to_string())
            } else {
                None
            }
        },
        None => None,
    }
}

/// Stores optimisation runs as JSON files in one directory.
#[derive(Debug, Clone)]
pub struct OptimizationStorage {
    base_dir: String,
}

impl OptimizationStorage {
    /// The storage directory.
    pub closed spec fn dir(&self) -> Seq<char> {
        self.base_dir@
    }

    /// Storage in `base_dir`.
    pub fn new(base_dir: &str) -> (s: Self)
        ensures
            s.dir() == base_dir@,
    {
        OptimizationStorage { base_dir: base_dir.to_string() }
    }

    /// The storage directory.
    pub fn base_dir(&self) -> (d: &str)
        ensures
            d@ == self.dir(),
    {
        self.base_dir.as_str()
    }

    /// The file name a run is saved under: its id and `.json`.
    pub fn run_file_name(id: &str) -> (f: String)
        ensures
            f@ == id@ + ".json"@,
    {
        let mut f = id.to_string();
        f.append(".json");
        f
    }

    /// The ids of the stored runs, given the names of the files in the
    /// directory: the stems of the `json` files, sorted.
    pub fn run_ids(&self, file_names: &Vec<String>) -> (ids: Vec<String>)
        ensures
            sorted_text(views(ids@)),
            views(ids@).to_multiset() == json_stems(views(file_names@)).to_multiset(),
    {
        let mut ids: Vec<String> = Vec::new();
        let mut i: usize = 0;
        while i < file_names.len()
            invariant
                i <= file_names@.len(),
                sorted_text(views(ids@)),
                views(ids@).to_multiset() == json_stems(views(file_names@.take(i as int))).to_multiset(),
            decreases file_names@.len() - i,
        {
            let ghost names = views(file_names@.take(i + 1));
            assert(names.drop_last() =~= views(file_names@.take(i as int)));
            assert(names.last() == file_names@[i as int]@);
            match json_stem_of(file_names[i].as_str()) {
                Some(stem) => {
                    insert_sorted(&mut ids, stem);
                },
                None => {},
            }
            i = i + 1;
        }
        assert(file_names@.take(i as int) =~= file_names@);
        ids
    }
}

/// A sorted arrangement of run ids is unique: two sorted lists with the
/// same ids are equal, so `run_ids` gives exactly the sorted ids.
pub proof fn law_sorted_ids_unique(a: Seq<Seq<char>>, b: Seq<Seq<char>>)
    requires
        sorted_text(a),
        sorted_text(b),
        a.to_multiset() == b.to_multiset(),
    ensures
        a == b,
    decreases a.len(),
{
    assert(a.len() == b.len()) by {
        vstd::seq_lib::to_multiset_len(a);
        vstd::seq_lib::to_multiset_len(b);
    }
    if a.len() > 0 {
        let x = a[0];
        let y = b[0];
        assert(a.to_multiset().contains(y)) by {
            assert(b.to_multiset().contains(y));
        }
        assert(b.to_multiset().contains(x)) by {
            assert(a.to_multiset().contains(x));
        }
        let ia = choose|i: int| 0 <= i < a.len() && a[i] == y;
        let ib = choose|i: int| 0 <= i < b.len() && b[i] == x;
        assert(!lex_lt(y, x)) by {
            if ia > 0 {
            } else {
                lemma_lex_lt_irreflexive(x);
            }
        }
        assert(!lex_lt(x, y)) by {
            if ib > 0 {
            } else {
                lemma_lex_lt_irreflexive(y);
            }
        }
        lemma_lex_lt_total(x, y);
        assert(a.remove(0).to_multiset() == b.remove(0).to_multiset());
        assert forall|i: int, j: int| 0 <= i < j < a.remove(0).len() implies !lex_lt(
            #[trigger] a.remove(0)[j],
            #[trigger] a.remove(0)[i],
        ) by {
            assert(a.remove(0)[j] == a[j + 1] && a.remove(0)[i] == a[i + 1]);
        }
        assert forall|i: int, j: int| 0 <= i < j < b.remove(0).len() implies !lex_lt(
            #[trigger] b.remove(0)[j],
            #[trigger] b.remove(0)[i],
        ) by {
            assert(b.remove(0)[j] == b[j + 1] && b.remove(0)[i] == b[i + 1]);
        }
        law_sorted_ids_unique(a.remove(0), b.remove(0));
        assert(a =~= seq![x] + a.remove(0));
        assert(b =~= seq![y] + b.remove(0));
    }
}

proof fn lemma_char_code_injective(x: char, y: char)
    ensures
        x != y ==> (x as u32) != (y as u32),
{
    assert((x as u32) as int == x as int);
    assert((y as u32) as int == y as int);
}

proof fn lemma_lex_lt_total(a: Seq<char>, b: Seq<char>)
    ensures
        a != b ==> lex_lt(a, b) || lex_lt(b, a),
    decreases a.len(),
{
    if a.len() > 0 && b.len() > 0 && a[0] == b[0] {
        lemma_lex_lt_total(a.drop_first(), b.drop_first());
        if a.drop_first() == b.drop_first() {
            assert(a =~= seq![a[0]] + a.drop_first());
            assert(b =~= seq![b[0]] + b.drop_first());
        }
    } else if a.len() == 0 && b.len() == 0 {
        assert(a =~= b);
    } else if a.len() > 0 && b.len() > 0 {
        lemma_char_code_injective(a[0], b[0]);
    }
}

} // verus!

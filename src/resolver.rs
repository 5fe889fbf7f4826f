//! Choosing and ordering the hook scripts of a state directory.
//!
//! Listing the directory is left to the caller; this module decides which of
//! the listed entries are scripts and in which order they run.
use vstd::prelude::*;
use vstd::relations::sorted_by;
use vstd::seq_lib::lemma_sorted_unique;
use vstd::string::*;
use crate::text::{
    contains, contains_exec, ends_with, ends_with_exec, lemma_lex_total, lemma_lex_trans,
    lemma_name_order_total, lex_le, lex_le_exec, name_order,
};

verus! {

/// One entry of a directory listing.
#[derive(Clone, Debug)]
pub struct DirEntry {
    pub name: String,
    /// A regular file (after following links).
    pub is_file: bool,
    /// The owner may execute it.
    pub executable: bool,
}

/// Why a state directory yields nothing to run.
#[derive(Clone, Copy, Debug, PartialEq, Eq, Structural)]
pub enum ResolveError {
    /// The directory does not exist.
    NoPathFound,
    /// The directory holds no script.
    NoScriptFound,
    /// The directory could not be read.
    Io,
}

pub open spec fn is_hidden(n: Seq<char>) -> bool {
    n.len() > 0 && n[0] == '.'
}

pub open spec fn is_backup(n: Seq<char>) -> bool {
    ends_with(n, "~"@) || ends_with(n, ".bak"@) || contains(n, ".dpkg-"@)
}

pub open spec fn has_script_suffix(n: Seq<char>) -> bool {
    ends_with(n, ".sh"@) || ends_with(n, ".bash"@) || ends_with(n, ".py"@) || ends_with(n, ".pl"@)
}

/// Whether a directory entry is a hook script.
pub open spec fn is_script(e: DirEntry) -> bool {
    e.is_file && !is_hidden(e.name@) && !is_backup(e.name@) && (e.executable || has_script_suffix(
        e.name@,
    ))
}

pub open spec fn views(v: Seq<String>) -> Seq<Seq<char>> {
    v.map_values(|s: String| s@)
}

/// The names of the scripts among `es`, in listing order.
pub open spec fn script_names(es: Seq<DirEntry>) -> Seq<Seq<char>> {
    es.filter(|e: DirEntry| is_script(e)).map_values(|e: DirEntry| e.name@)
}

/// The names of the scripts among `es`, in byte order.
pub open spec fn ordered_scripts(es: Seq<DirEntry>) -> Seq<Seq<char>> {
    script_names(es).sort_by(name_order())
}

/// `name` inside directory `dir`.
pub open spec fn join_path(dir: Seq<char>, name: Seq<char>) -> Seq<char> {
    if dir.len() > 0 && dir.last() == '/' {
        dir + name
    } else {
        dir + "/"@ + name
    }
}

/// What resolving a directory gives: `None` for a listing stands for a
/// directory that does not exist.
pub open spec fn resolve_spec(dir: Seq<char>, listing: Option<Seq<DirEntry>>) -> Result<
    Seq<Seq<char>>,
    ResolveError,
> {
    match listing {
        None => Err(ResolveError::NoPathFound),
        Some(es) => if script_names(es).len() == 0 {
            Err(ResolveError::NoScriptFound)
        } else {
            Ok(ordered_scripts(es).map_values(|n: Seq<char>| join_path(dir, n)))
        },
    }
}

/// Whether a directory entry is a hook script.
pub fn is_script_entry(e: &DirEntry) -> (r: bool)
    ensures
        r == is_script(*e),
{
    let n = e.name.as_str();
    if !e.is_file {
        return false;
    }
    if n.unicode_len() > 0 && n.get_char(0) == '.' {
        return false;
    }
    if ends_with_exec(n, "~") || ends_with_exec(n, ".bak") || contains_exec(n, ".dpkg-") {
        return false;
    }
    e.executable || ends_with_exec(n, ".sh") || ends_with_exec(n, ".bash") || ends_with_exec(
        n,
        ".py",
    ) || ends_with_exec(n, ".pl")
}

/// `name` inside directory `dir`.
pub fn join(dir: &str, name: &str) -> (r: String)
    ensures
        r@ == join_path(dir@, name@),
{
    let mut r = String::from_str(dir);
    let n = dir.unicode_len();
    if !(n > 0 && dir.get_char(n - 1) == '/') {
        r.append("/");
    }
    r.append(name);
    r
}

proof fn lemma_script_names_push(es: Seq<DirEntry>, i: int)
    requires
        0 <= i < es.len(),
    ensures
        script_names(es.subrange(0, i + 1)) == if is_script(es[i]) {
            script_names(es.subrange(0, i)).push(es[i].name@)
        } else {
            script_names(es.subrange(0, i))
        },
{
    let pred = |e: DirEntry| is_script(e);
    assert(es.subrange(0, i + 1) =~= es.subrange(0, i).push(es[i]));
    es.subrange(0, i).lemma_filter_push(es[i], pred);
    let f = es.subrange(0, i).filter(pred);
    assert(f.push(es[i]).map_values(|e: DirEntry| e.name@) =~= f.map_values(|e: DirEntry| e.name@).push(
        es[i].name@,
    ));
}

proof fn lemma_insert_sorted(v: Seq<Seq<char>>, j: int, x: Seq<char>)
    requires
        0 <= j <= v.len(),
        sorted_by(v, name_order()),
        forall|k: int| 0 <= k < j ==> lex_le(#[trigger] v[k], x),
        j < v.len() ==> !lex_le(v[j], x),
    ensures
        sorted_by(v.insert(j, x), name_order()),
{
    let w = v.insert(j, x);
    if j < v.len() {
        lemma_lex_total(v[j], x);
    }
    assert forall|p: int, q: int| 0 <= p < q < w.len() implies #[trigger] name_order()(w[p], w[q]) by {
        if q < j {
            assert(name_order()(v[p], v[q]));
        } else if q == j {
        } else if p < j {
            assert(name_order()(v[j], v[q - 1]) || j == q - 1);
            lemma_lex_trans(v[p], x, v[j]);
            if j != q - 1 {
                lemma_lex_trans(v[p], v[j], v[q - 1]);
            }
        } else if p == j {
            if j != q - 1 {
                assert(name_order()(v[j], v[q - 1]));
                lemma_lex_trans(x, v[j], v[q - 1]);
            }
        } else {
            assert(name_order()(v[p - 1], v[q - 1]));
        }
    }
}

proof fn lemma_script_names_add(a: Seq<DirEntry>, b: Seq<DirEntry>)
    ensures
        script_names(a + b) == script_names(a) + script_names(b),
{
    let pred = |e: DirEntry| is_script(e);
    Seq::filter_distributes_over_add(a, b, pred);
    assert(script_names(a + b) =~= script_names(a) + script_names(b));
}

proof fn lemma_script_names_perm(a: Seq<DirEntry>, b: Seq<DirEntry>)
    requires
        a.to_multiset() == b.to_multiset(),
    ensures
        script_names(a).to_multiset() == script_names(b).to_multiset(),
    decreases a.len(),
{
    broadcast use vstd::multiset::group_multiset_axioms;
    broadcast use vstd::seq_lib::group_to_multiset_ensures;

    if a.len() == 0 {
        vstd::seq_lib::to_multiset_len(b);
        assert(b =~= a);
    } else {
        let x = a[0];
        assert(a.to_multiset().contains(x));
        assert(b.to_multiset().contains(x));
        let i = choose|i: int| 0 <= i < b.len() && b[i] == x;
        let a1 = a.subrange(1, a.len() as int);
        let b1 = b.subrange(0, i);
        let b2 = b.subrange(i + 1, b.len() as int);
        assert(a =~= seq![x] + a1);
        assert(b =~= b1 + (seq![x] + b2));
        assert(b.remove(i) =~= b1 + b2);
        vstd::seq_lib::to_multiset_remove(b, i);
        assert(a1 =~= a.remove(0));
        vstd::seq_lib::to_multiset_remove(a, 0);
        lemma_script_names_perm(a1, b1 + b2);
        lemma_script_names_add(seq![x], a1);
        lemma_script_names_add(b1, seq![x] + b2);
        lemma_script_names_add(seq![x], b2);
        lemma_script_names_add(b1, b2);
        vstd::seq_lib::lemma_multiset_commutative(script_names(seq![x]), script_names(a1));
        vstd::seq_lib::lemma_multiset_commutative(script_names(b1), script_names(seq![x] + b2));
        vstd::seq_lib::lemma_multiset_commutative(script_names(seq![x]), script_names(b2));
        vstd::seq_lib::lemma_multiset_commutative(script_names(b1), script_names(b2));
        assert(script_names(b).to_multiset() =~= script_names(a).to_multiset());
    }
}

/// The scripts chosen from a directory, and their order, depend only on which
/// entries it holds, not on the order in which the listing gives them.
pub proof fn lemma_order_independent(dir: Seq<char>, e1: Seq<DirEntry>, e2: Seq<DirEntry>)
    requires
        e1.to_multiset() == e2.to_multiset(),
    ensures
        resolve_spec(dir, Some(e1)) == resolve_spec(dir, Some(e2)),
{
    lemma_script_names_perm(e1, e2);
    lemma_name_order_total();
    script_names(e1).lemma_sort_by_ensures(name_order());
    script_names(e2).lemma_sort_by_ensures(name_order());
    lemma_sorted_unique(ordered_scripts(e1), ordered_scripts(e2), name_order());
    vstd::seq_lib::to_multiset_len(script_names(e1));
    vstd::seq_lib::to_multiset_len(script_names(e2));
}

/// The names of the scripts among `es`, in byte order.
pub fn sorted_script_names(es: &Vec<DirEntry>) -> (r: Vec<String>)
    ensures
        views(r@) == ordered_scripts(es@),
{
    let mut out: Vec<String> = Vec::new();
    let mut i: usize = 0;
    proof {
        reveal(Seq::filter);
        assert(script_names(es@.subrange(0, 0)) =~= Seq::<Seq<char>>::empty());
        assert(views(out@) =~= Seq::<Seq<char>>::empty());
    }
    while i < es.len()
        invariant
            i <= es@.len(),
            sorted_by(views(out@), name_order()),
            views(out@).to_multiset() == script_names(es@.subrange(0, i as int)).to_multiset(),
        decreases es@.len() - i,
    {
        proof {
            lemma_script_names_push(es@, i as int);
        }
        if is_script_entry(&es[i]) {
            let name = es[i].name.clone();
            let mut j: usize = 0;
            while j < out.len() && lex_le_exec(out[j].as_str(), name.as_str())
                invariant
                    j <= out@.len(),
                    forall|k: int| 0 <= k < j ==> lex_le(#[trigger] views(out@)[k], name@),
                decreases out@.len() - j,
            {
                j = j + 1;
            }
            proof {
                lemma_insert_sorted(views(out@), j as int, name@);
                assert(views(out@.insert(j as int, name)) =~= views(out@).insert(j as int, name@));
                vstd::seq_lib::to_multiset_insert(views(out@), j as int, name@);
                vstd::seq_lib::to_multiset_build(script_names(es@.subrange(0, i as int)), name@);
            }
            out.insert(j, name);
        }
        i = i + 1;
    }
    proof {
        assert(es@.subrange(0, es@.len() as int) =~= es@);
        lemma_name_order_total();
        script_names(es@).lemma_sort_by_ensures(name_order());
        lemma_sorted_unique(views(out@), ordered_scripts(es@), name_order());
    }
    out
}

/// The paths of the scripts to run from directory `dir`, given its listing
/// (`None` where it does not exist), in byte order of their names.
pub fn resolve(dir: &str, listing: &Option<Vec<DirEntry>>) -> (r: Result<Vec<String>, ResolveError>)
    ensures
        match listing {
            None => r == Err::<Vec<String>, ResolveError>(ResolveError::NoPathFound),
            Some(es) => match resolve_spec(dir@, Some(es@)) {
                Ok(paths) => r matches Ok(v) && views(v@) == paths,
                Err(e) => r == Err::<Vec<String>, ResolveError>(e),
            },
        },
{
    match listing {
        None => Err(ResolveError::NoPathFound),
        Some(es) => {
            let names = sorted_script_names(es);
            proof {
                lemma_name_order_total();
                script_names(es@).lemma_sort_by_ensures(name_order());
                vstd::seq_lib::to_multiset_len(script_names(es@));
                vstd::seq_lib::to_multiset_len(ordered_scripts(es@));
            }
            if names.len() == 0 {
                return Err(ResolveError::NoScriptFound);
            }
            let mut paths: Vec<String> = Vec::new();
            let mut k: usize = 0;
            while k < names.len()
                invariant
                    k <= names@.len(),
                    views(names@) == ordered_scripts(es@),
                    views(paths@) =~= ordered_scripts(es@).subrange(0, k as int).map_values(
                        |n: Seq<char>| join_path(dir@, n),
                    ),
                decreases names@.len() - k,
            {
                let p = join(dir, names[k].as_str());
                proof {
                    assert(views(names@)[k as int] == names@[k as int]@);
                }
                let ghost before = paths@;
                paths.push(p);
                proof {
                    assert(views(paths@) =~= views(before).push(p@));
                    assert(ordered_scripts(es@).subrange(0, k + 1).map_values(
                        |n: Seq<char>| join_path(dir@, n),
                    ) =~= ordered_scripts(es@).subrange(0, k as int).map_values(
                        |n: Seq<char>| join_path(dir@, n),
                    ).push(join_path(dir@, ordered_scripts(es@)[k as int])));
                }
                k = k + 1;
            }
            assert(ordered_scripts(es@).subrange(0, names@.len() as int) =~= ordered_scripts(es@));
            Ok(paths)
        },
    }
}

} // verus!

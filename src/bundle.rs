//! Packs script sources into one self-contained Lua artifact.
//!
//! The artifact is a table of deferred units, one per source file, keyed by
//! logical path, followed by exactly one call of the bootstrap unit.
use vstd::prelude::*;
use vstd::string::StringSliceAdditionalSpecFns;

verus! {

/// Text that opens every artifact: the table that holds the units.
pub const ARTIFACT_HEADER: &'static str = "local _EMBED = {}\n";

/// Text that closes every artifact: the one call of the bootstrap unit,
/// whose logical path is `_init.lua`.
pub const ARTIFACT_TRAILER: &'static str = "_EMBED['_init.lua']()\n";

/// The start of the bootstrap unit's entry, as the artifact writes it: on a
/// line of its own, since the header and every entry end a line.
pub const BOOTSTRAP_ENTRY: &'static str = "\n_EMBED['_init.lua'] = function()\n";

/// Text that opens an entry, before its logical path.
pub const ENTRY_OPEN: &'static str = "_EMBED['";

/// Text between an entry's logical path and its body.
pub const ENTRY_MID: &'static str = "'] = function()\n";

/// Text that closes an entry's body.
pub const ENTRY_CLOSE: &'static str = "\nend\n";

/// Replaces every backslash by a forward slash.
pub open spec fn normalized(p: Seq<char>) -> Seq<char> {
    p.map_values(|c: char| if c == '\\' { '/' } else { c })
}

/// A logical path can stand between single quotes of the artifact: it is
/// not empty and holds no quote, backslash or line break.
pub open spec fn valid_logical_path(p: Seq<char>) -> bool {
    &&& p.len() > 0
    &&& forall|i: int| 0 <= i < p.len() ==> #[trigger] p[i] != '\'' && p[i] != '\\' && p[i] != '\n' && p[i] != '\r'
}

/// One source file: its logical path and its text.
#[derive(Debug)]
pub struct SourceUnit {
    pub logical_path: String,
    pub content: String,
}

impl View for SourceUnit {
    type V = (Seq<char>, Seq<char>);

    open spec fn view(&self) -> (Seq<char>, Seq<char>) {
        (self.logical_path@, self.content@)
    }
}

/// Relies on str::replace: each backslash becomes a forward slash, all else stays.
#[verifier::external_body]
fn replace_backslashes(s: &str) -> (r: String)
    ensures
        r@ == normalized(s@),
{
    s.replace('\\', "/")
}

impl SourceUnit {
    /// A unit for the file at `relative_path` (relative to the bundling
    /// root), its separators normalized to `/`.
    pub fn new(relative_path: &str, content: String) -> (r: SourceUnit)
        ensures
            r.logical_path@ == normalized(relative_path@),
            r.content@ == content@,
    {
        SourceUnit { logical_path: replace_backslashes(relative_path), content }
    }
}

/// Text of one entry of the artifact.
pub open spec fn entry_text(u: (Seq<char>, Seq<char>)) -> Seq<char> {
    ENTRY_OPEN@ + u.0 + ENTRY_MID@ + u.1 + ENTRY_CLOSE@
}

/// Text of a sequence of entries, in order.
pub open spec fn entries_text(us: Seq<(Seq<char>, Seq<char>)>) -> Seq<char>
    decreases us.len(),
{
    if us.len() == 0 {
        Seq::empty()
    } else {
        entries_text(us.drop_last()) + entry_text(us.last())
    }
}

/// The artifact for units taken in the given order.
pub open spec fn artifact_text(us: Seq<(Seq<char>, Seq<char>)>) -> Seq<char> {
    ARTIFACT_HEADER@ + entries_text(us) + ARTIFACT_TRAILER@
}

/// Every artifact opens with the table of units and ends with the call of
/// the bootstrap unit, whatever units it holds, none included.
pub proof fn lemma_artifact_framing(us: Seq<(Seq<char>, Seq<char>)>)
    ensures
        artifact_text(us).take(ARTIFACT_HEADER@.len() as int) == ARTIFACT_HEADER@,
        artifact_text(us).skip(artifact_text(us).len() - ARTIFACT_TRAILER@.len()) == ARTIFACT_TRAILER@,
        us.len() == 0 ==> artifact_text(us) == ARTIFACT_HEADER@ + ARTIFACT_TRAILER@,
{
    let t = artifact_text(us);
    assert(t.take(ARTIFACT_HEADER@.len() as int) =~= ARTIFACT_HEADER@);
    assert(t.skip(t.len() - ARTIFACT_TRAILER@.len()) =~= ARTIFACT_TRAILER@);
    if us.len() == 0 {
        assert(entries_text(us) =~= Seq::<char>::empty());
        assert(t =~= ARTIFACT_HEADER@ + ARTIFACT_TRAILER@);
    }
}

/// The views of the units, in order.
pub open spec fn units_view(units: Seq<SourceUnit>) -> Seq<(Seq<char>, Seq<char>)> {
    units.map_values(|u: SourceUnit| u@)
}

/// Renders the artifact for `units`, in the order given.
pub fn render_artifact(units: &Vec<SourceUnit>) -> (r: String)
    ensures
        r@ == artifact_text(units_view(units@)),
{
    let mut out = String::from_str(ARTIFACT_HEADER);
    let mut i: usize = 0;
    while i < units.len()
        invariant
            i <= units.len(),
            out@ == ARTIFACT_HEADER@ + entries_text(units_view(units@.take(i as int))),
        decreases units.len() - i,
    {
        let u = &units[i];
        out.append(ENTRY_OPEN);
        out.append(u.logical_path.as_str());
        out.append(ENTRY_MID);
        out.append(u.content.as_str());
        out.append(ENTRY_CLOSE);
        proof {
            let us = units_view(units@.take(i as int + 1));
            assert(us.drop_last() =~= units_view(units@.take(i as int)));
            assert(us.last() == units@[i as int]@);
        }
        i = i + 1;
    }
    assert(units@.take(units.len() as int) =~= units@);
    out.append(ARTIFACT_TRAILER);
    out
}


/// Byte-wise (code point) order on logical paths, as `str` orders them.
pub open spec fn path_lt(a: Seq<char>, b: Seq<char>) -> bool
    decreases a.len(),
{
    if a.len() == 0 {
        b.len() > 0
    } else if b.len() == 0 {
        false
    } else if a[0] != b[0] {
        (a[0] as u32) < (b[0] as u32)
    } else {
        path_lt(a.drop_first(), b.drop_first())
    }
}

/// No two units share a logical path.
pub open spec fn keys_distinct(us: Seq<(Seq<char>, Seq<char>)>) -> bool {
    forall|i: int, j: int| 0 <= i < j < us.len() ==> #[trigger] us[i].0 != #[trigger] us[j].0
}

/// Units in strictly increasing order of logical path.
pub open spec fn strictly_sorted(us: Seq<(Seq<char>, Seq<char>)>) -> bool {
    forall|i: int, j: int| 0 <= i < j < us.len() ==> path_lt(#[trigger] us[i].0, #[trigger] us[j].0)
}

/// The two sequences hold the same units, each as often (when keys are distinct).
pub open spec fn same_units(a: Seq<(Seq<char>, Seq<char>)>, b: Seq<(Seq<char>, Seq<char>)>) -> bool {
    &&& a.len() == b.len()
    &&& forall|i: int| 0 <= i < a.len() ==> b.contains(#[trigger] a[i])
    &&& forall|j: int| 0 <= j < b.len() ==> a.contains(#[trigger] b[j])
}

/// The units in order of logical path: the order in which the artifact holds them.
pub open spec fn canonical_order(us: Seq<(Seq<char>, Seq<char>)>) -> Seq<(Seq<char>, Seq<char>)> {
    choose|s: Seq<(Seq<char>, Seq<char>)>| strictly_sorted(s) && same_units(s, us)
}

pub proof fn lemma_path_lt_skip(a: Seq<char>, b: Seq<char>, i: int)
    requires
        0 <= i <= a.len(),
        i <= b.len(),
        a.take(i) =~= b.take(i),
    ensures
        path_lt(a, b) == path_lt(a.skip(i), b.skip(i)),
    decreases i,
{
    if i == 0 {
        assert(a.skip(0) =~= a);
        assert(b.skip(0) =~= b);
    } else {
        assert(a[0] == a.take(i)[0]);
        assert(b[0] == b.take(i)[0]);
        assert(a.drop_first().take(i - 1) =~= b.drop_first().take(i - 1)) by {
            assert forall|k: int| 0 <= k < i - 1 implies #[trigger] a.drop_first().take(i - 1)[k] == b.drop_first().take(i - 1)[k] by {
                assert(a.take(i)[k + 1] == b.take(i)[k + 1]);
            }
        }
        lemma_path_lt_skip(a.drop_first(), b.drop_first(), i - 1);
        assert(a.drop_first().skip(i - 1) =~= a.skip(i));
        assert(b.drop_first().skip(i - 1) =~= b.skip(i));
    }
}

pub proof fn lemma_path_lt_irreflexive(a: Seq<char>)
    ensures
        !path_lt(a, a),
    decreases a.len(),
{
    if a.len() > 0 {
        lemma_path_lt_irreflexive(a.drop_first());
    }
}

pub proof fn lemma_path_lt_transitive(a: Seq<char>, b: Seq<char>, c: Seq<char>)
    requires
        path_lt(a, b),
        path_lt(b, c),
    ensures
        path_lt(a, c),
    decreases a.len(),
{
    if a.len() > 0 && a[0] == b[0] && b[0] == c[0] {
        lemma_path_lt_transitive(a.drop_first(), b.drop_first(), c.drop_first());
    }
}

pub proof fn lemma_path_lt_asymmetric(a: Seq<char>, b: Seq<char>)
    requires
        path_lt(a, b),
    ensures
        !path_lt(b, a),
        a != b,
{
    lemma_path_lt_irreflexive(a);
    if path_lt(b, a) {
        lemma_path_lt_transitive(a, b, a);
    }
}

/// Compares two logical paths: negative, zero or positive as `a` comes
/// before, equals or comes after `b`.
pub fn compare_paths(a: &str, b: &str) -> (r: i8)
    ensures
        r < 0 <==> path_lt(a@, b@),
        r == 0 <==> a@ == b@,
        r > 0 <==> path_lt(b@, a@),
{
    let la = a.unicode_len();
    let lb = b.unicode_len();
    let mut i: usize = 0;
    while i < la && i < lb
        invariant
            la == a@.len(),
            lb == b@.len(),
            i <= la,
            i <= lb,
            a@.take(i as int) =~= b@.take(i as int),
        decreases la - i,
    {
        let ca = a.get_char(i);
        let cb = b.get_char(i);
        if ca != cb {
            proof {
                lemma_path_lt_skip(a@, b@, i as int);
                lemma_path_lt_skip(b@, a@, i as int);
                assert(a@.skip(i as int)[0] == ca);
                assert(b@.skip(i as int)[0] == cb);
                assert(a@[i as int] != b@[i as int]);
            }
            if (ca as u32) < (cb as u32) {
                return -1;
            } else {
                return 1;
            }
        }
        proof {
            assert(a@.take(i as int + 1) =~= a@.take(i as int).push(ca));
            assert(b@.take(i as int + 1) =~= b@.take(i as int).push(cb));
        }
        i = i + 1;
    }
    proof {
        lemma_path_lt_skip(a@, b@, i as int);
        lemma_path_lt_skip(b@, a@, i as int);
    }
    if la == lb {
        proof {
            assert(a@ =~= a@.take(i as int));
            assert(b@ =~= b@.take(i as int));
        }
        0
    } else if la < lb {
        -1
    } else {
        1
    }
}


/// Why a set of units cannot be bundled.
#[derive(Debug)]
pub enum BundleError {
    /// A logical path that cannot stand in the artifact.
    InvalidPath { path: String },
    /// Two units with the same logical path.
    DuplicatePath { path: String },
}

/// Every unit has a logical path that can stand in the artifact.
pub open spec fn all_paths_valid(us: Seq<(Seq<char>, Seq<char>)>) -> bool {
    forall|i: int| 0 <= i < us.len() ==> valid_logical_path(#[trigger] us[i].0)
}

/// Whether `p` can stand as a logical path in the artifact.
pub fn is_valid_logical_path(p: &str) -> (r: bool)
    ensures
        r == valid_logical_path(p@),
{
    let n = p.unicode_len();
    if n == 0 {
        return false;
    }
    let mut i: usize = 0;
    while i < n
        invariant
            n == p@.len(),
            i <= n,
            forall|k: int| 0 <= k < i ==> #[trigger] p@[k] != '\'' && p@[k] != '\\' && p@[k] != '\n' && p@[k] != '\r',
        decreases n - i,
    {
        let c = p.get_char(i);
        if c == '\'' || c == '\\' || c == '\n' || c == '\r' {
            return false;
        }
        i = i + 1;
    }
    true
}

/// Where a unit with logical path `key` goes in `sorted`, or `None` where a
/// unit there has that path already.
fn find_slot(sorted: &Vec<SourceUnit>, key: &String) -> (r: Option<usize>)
    requires
        strictly_sorted(units_view(sorted@)),
    ensures
        r matches Some(p) ==> {
            &&& p <= sorted@.len()
            &&& forall|k: int| 0 <= k < p ==> path_lt(#[trigger] sorted@[k].logical_path@, key@)
            &&& forall|k: int| p <= k < sorted@.len() ==> path_lt(key@, #[trigger] sorted@[k].logical_path@)
        },
        r is None ==> exists|k: int| 0 <= k < sorted@.len() && #[trigger] sorted@[k].logical_path@ == key@,
{
    let ghost vs = units_view(sorted@);
    let mut p: usize = 0;
    while p < sorted.len()
        invariant
            p <= sorted@.len(),
            vs == units_view(sorted@),
            strictly_sorted(vs),
            forall|k: int| 0 <= k < p ==> path_lt(#[trigger] sorted@[k].logical_path@, key@),
        decreases sorted.len() - p,
    {
        let c = compare_paths(sorted[p].logical_path.as_str(), key.as_str());
        if c == 0 {
            return None;
        }
        if c > 0 {
            proof {
                assert forall|k: int| p <= k < sorted@.len() implies path_lt(key@, #[trigger] sorted@[k].logical_path@) by {
                    if k > p {
                        assert(vs[p as int].0 == sorted@[p as int].logical_path@);
                        assert(vs[k].0 == sorted@[k].logical_path@);
                        lemma_path_lt_transitive(key@, sorted@[p as int].logical_path@, sorted@[k].logical_path@);
                    }
                }
            }
            return Some(p);
        }
        p = p + 1;
    }
    Some(p)
}

/// Orders the units by logical path, or names a logical path that two of them share.
pub fn sort_units(units: &Vec<SourceUnit>) -> (r: Result<Vec<SourceUnit>, BundleError>)
    ensures
        r is Ok <==> keys_distinct(units_view(units@)),
        r matches Ok(v) ==> strictly_sorted(units_view(v@)) && same_units(units_view(v@), units_view(units@)),
        r matches Err(e) ==> e matches BundleError::DuplicatePath { path } && exists|j: int, k: int|
            0 <= j < k < units@.len() && #[trigger] units@[j].logical_path@ == path@ && #[trigger] units@[k].logical_path@ == path@,
{
    let mut out: Vec<SourceUnit> = Vec::new();
    let mut i: usize = 0;
    proof {
        assert(units_view(units@.take(0)) =~= Seq::empty());
        assert(units_view(out@) =~= Seq::empty());
    }
    while i < units.len()
        invariant
            i <= units.len(),
            strictly_sorted(units_view(out@)),
            same_units(units_view(out@), units_view(units@.take(i as int))),
            keys_distinct(units_view(units@.take(i as int))),
        decreases units.len() - i,
    {
        let x = &units[i];
        let ghost vo = units_view(out@);
        let ghost t = units_view(units@.take(i as int));
        let ghost t2 = units_view(units@.take(i as int + 1));
        let ghost xv = x@;
        proof {
            assert(t2 =~= t.push(xv));
        }
        match find_slot(&out, &x.logical_path) {
            None => {
                proof {
                    let k = choose|k: int| 0 <= k < out@.len() && #[trigger] out@[k].logical_path@ == x.logical_path@;
                    assert(t.contains(vo[k]));
                    let j = choose|j: int| 0 <= j < t.len() && t[j] == vo[k];
                    assert(units@[j]@ == t[j]);
                    assert(units@[j].logical_path@ == x.logical_path@);
                    assert(!keys_distinct(units_view(units@))) by {
                        assert(units_view(units@)[j].0 == units_view(units@)[i as int].0);
                    }
                }
                return Err(BundleError::DuplicatePath { path: x.logical_path.clone() });
            },
            Some(p) => {
                let unit = SourceUnit { logical_path: x.logical_path.clone(), content: x.content.clone() };
                out.insert(p, unit);
                proof {
                    let nvo = units_view(out@);
                    assert(nvo =~= vo.insert(p as int, xv));
                    assert forall|a: int, b: int| 0 <= a < b < nvo.len() implies path_lt(#[trigger] nvo[a].0, #[trigger] nvo[b].0) by {
                        if b < p {
                        } else if a > p {
                            assert(vo[a - 1].0 == nvo[a].0);
                        } else if a == p {
                            assert(nvo[b].0 == out@[b].logical_path@);
                            assert(vo[b - 1].0 == nvo[b].0);
                        } else if b == p {
                            assert(vo[a].0 == nvo[a].0);
                        } else {
                            assert(vo[b - 1].0 == nvo[b].0);
                        }
                    }
                    assert forall|k: int| 0 <= k < nvo.len() implies t2.contains(#[trigger] nvo[k]) by {
                        if k == p {
                            assert(t2[i as int] == xv);
                        } else {
                            let m = if k < p { k } else { k - 1 };
                            assert(nvo[k] == vo[m]);
                            assert(t.contains(vo[m]));
                            let j = choose|j: int| 0 <= j < t.len() && t[j] == vo[m];
                            assert(t2[j] == vo[m]);
                        }
                    }
                    assert forall|j: int| 0 <= j < t2.len() implies nvo.contains(#[trigger] t2[j]) by {
                        if j == i {
                            assert(nvo[p as int] == xv);
                        } else {
                            assert(t2[j] == t[j]);
                            assert(vo.contains(t[j]));
                            let m = choose|m: int| 0 <= m < vo.len() && vo[m] == t[j];
                            if m < p {
                                assert(nvo[m] == vo[m]);
                            } else {
                                assert(nvo[m + 1] == vo[m]);
                            }
                        }
                    }
                    assert forall|a: int, b: int| 0 <= a < b < t2.len() implies #[trigger] t2[a].0 != #[trigger] t2[b].0 by {
                        if b < i {
                            assert(t2[a] == t[a] && t2[b] == t[b]);
                        } else {
                            assert(t2[a] == t[a]);
                            assert(vo.contains(t[a]));
                            let m = choose|m: int| 0 <= m < vo.len() && vo[m] == t[a];
                            assert(vo[m].0 == out@[if m < p { m } else { m + 1 }].logical_path@);
                            if m < p {
                                assert(path_lt(vo[m].0, xv.0));
                                lemma_path_lt_asymmetric(vo[m].0, xv.0);
                            } else {
                                assert(path_lt(xv.0, vo[m].0));
                                lemma_path_lt_asymmetric(xv.0, vo[m].0);
                            }
                        }
                    }
                }
            },
        }
        i = i + 1;
    }
    proof {
        assert(units@.take(units.len() as int) =~= units@);
    }
    Ok(out)
}


/// Two strictly sorted sequences of the same units are equal.
pub proof fn lemma_sorted_arrangement_unique(a: Seq<(Seq<char>, Seq<char>)>, b: Seq<(Seq<char>, Seq<char>)>)
    requires
        strictly_sorted(a),
        strictly_sorted(b),
        same_units(a, b),
    ensures
        a == b,
    decreases a.len(),
{
    if a.len() == 0 {
        assert(a =~= b);
    } else {
        assert(b.contains(a[0]));
        let j = choose|j: int| 0 <= j < b.len() && b[j] == a[0];
        assert(a.contains(b[0]));
        let i = choose|i: int| 0 <= i < a.len() && a[i] == b[0];
        if j > 0 {
            assert(path_lt(b[0].0, b[j].0));
            if i > 0 {
                assert(path_lt(a[0].0, a[i].0));
                lemma_path_lt_asymmetric(a[0].0, b[0].0);
            } else {
                lemma_path_lt_irreflexive(b[0].0);
            }
        }
        assert(a[0] == b[0]);
        let a1 = a.drop_first();
        let b1 = b.drop_first();
        assert forall|k: int| 0 <= k < a1.len() implies b1.contains(#[trigger] a1[k]) by {
            assert(a1[k] == a[k + 1]);
            assert(b.contains(a[k + 1]));
            let m = choose|m: int| 0 <= m < b.len() && b[m] == a[k + 1];
            assert(path_lt(a[0].0, a[k + 1].0));
            lemma_path_lt_asymmetric(a[0].0, a[k + 1].0);
            assert(m != 0);
            assert(b1[m - 1] == a1[k]);
        }
        assert forall|k: int| 0 <= k < b1.len() implies a1.contains(#[trigger] b1[k]) by {
            assert(b1[k] == b[k + 1]);
            assert(a.contains(b[k + 1]));
            let m = choose|m: int| 0 <= m < a.len() && a[m] == b[k + 1];
            assert(path_lt(b[0].0, b[k + 1].0));
            lemma_path_lt_asymmetric(b[0].0, b[k + 1].0);
            assert(m != 0);
            assert(a1[m - 1] == b1[k]);
        }
        assert(strictly_sorted(a1)) by {
            assert forall|x: int, y: int| 0 <= x < y < a1.len() implies path_lt(#[trigger] a1[x].0, #[trigger] a1[y].0) by {
                assert(a1[x] == a[x + 1] && a1[y] == a[y + 1]);
            }
        }
        assert(strictly_sorted(b1)) by {
            assert forall|x: int, y: int| 0 <= x < y < b1.len() implies path_lt(#[trigger] b1[x].0, #[trigger] b1[y].0) by {
                assert(b1[x] == b[x + 1] && b1[y] == b[y + 1]);
            }
        }
        lemma_sorted_arrangement_unique(a1, b1);
        assert(a =~= b) by {
            assert forall|k: int| 0 <= k < a.len() implies a[k] == b[k] by {
                if k > 0 {
                    assert(a[k] == a1[k - 1] && b[k] == b1[k - 1]);
                }
            }
        }
    }
}

/// The artifact does not depend on the order in which the sources were
/// found: for any two arrangements `a` and `b` of the same units, the order
/// in which the artifact holds them is the one sorted arrangement `s`.
pub proof fn lemma_artifact_order_independent(
    a: Seq<(Seq<char>, Seq<char>)>,
    b: Seq<(Seq<char>, Seq<char>)>,
    s: Seq<(Seq<char>, Seq<char>)>,
)
    requires
        same_units(a, b),
        strictly_sorted(s),
        same_units(s, a),
    ensures
        canonical_order(a) == s,
        canonical_order(b) == s,
        artifact_text(canonical_order(a)) == artifact_text(canonical_order(b)),
{
    assert(same_units(s, b)) by {
        assert forall|i: int| 0 <= i < s.len() implies b.contains(#[trigger] s[i]) by {
            assert(a.contains(s[i]));
            let j = choose|j: int| 0 <= j < a.len() && a[j] == s[i];
            assert(b.contains(a[j]));
        }
        assert forall|j: int| 0 <= j < b.len() implies s.contains(#[trigger] b[j]) by {
            assert(a.contains(b[j]));
            let k = choose|k: int| 0 <= k < a.len() && a[k] == b[j];
            assert(s.contains(a[k]));
        }
    }
    lemma_canonical_order_is(a, s);
    lemma_canonical_order_is(b, s);
}

/// A strictly sorted arrangement of `us` is its canonical order.
pub proof fn lemma_canonical_order_is(us: Seq<(Seq<char>, Seq<char>)>, s: Seq<(Seq<char>, Seq<char>)>)
    requires
        strictly_sorted(s),
        same_units(s, us),
    ensures
        canonical_order(us) == s,
{
    let c = canonical_order(us);
    assert(strictly_sorted(c) && same_units(c, us));
    assert(same_units(c, s)) by {
        assert forall|i: int| 0 <= i < c.len() implies s.contains(#[trigger] c[i]) by {
            assert(us.contains(c[i]));
            let j = choose|j: int| 0 <= j < us.len() && us[j] == c[i];
            assert(s.contains(us[j]));
        }
        assert forall|j: int| 0 <= j < s.len() implies c.contains(#[trigger] s[j]) by {
            assert(us.contains(s[j]));
            let k = choose|k: int| 0 <= k < us.len() && us[k] == s[j];
            assert(c.contains(us[k]));
        }
    }
    lemma_sorted_arrangement_unique(c, s);
}

/// Bundles the units into one artifact: every unit in order of logical
/// path, then the one call of the bootstrap unit.
pub fn bundle_sources(units: &Vec<SourceUnit>) -> (r: Result<String, BundleError>)
    ensures
        r is Ok <==> all_paths_valid(units_view(units@)) && keys_distinct(units_view(units@)),
        r matches Ok(text) ==> text@ == artifact_text(canonical_order(units_view(units@))),
        r matches Err(BundleError::InvalidPath { path }) ==> exists|k: int|
            0 <= k < units@.len() && #[trigger] units@[k].logical_path@ == path@ && !valid_logical_path(path@),
        r matches Err(BundleError::DuplicatePath { path }) ==> all_paths_valid(units_view(units@))
            && exists|j: int, k: int| 0 <= j < k < units@.len() && #[trigger] units@[j].logical_path@ == path@
            && #[trigger] units@[k].logical_path@ == path@,
{
    let ghost uv = units_view(units@);
    let mut i: usize = 0;
    while i < units.len()
        invariant
            i <= units.len(),
            uv == units_view(units@),
            forall|k: int| 0 <= k < i ==> valid_logical_path(#[trigger] uv[k].0),
        decreases units.len() - i,
    {
        if !is_valid_logical_path(units[i].logical_path.as_str()) {
            proof {
                assert(!valid_logical_path(uv[i as int].0));
            }
            return Err(BundleError::InvalidPath { path: units[i].logical_path.clone() });
        }
        i = i + 1;
    }
    match sort_units(units) {
        Ok(sorted) => {
            proof {
                lemma_canonical_order_is(uv, units_view(sorted@));
            }
            Ok(render_artifact(&sorted))
        },
        Err(e) => Err(e),
    }
}


/// `needle` occurs in `hay`.
pub open spec fn bytes_contain(hay: Seq<u8>, needle: Seq<u8>) -> bool {
    exists|i: int| 0 <= i && i + needle.len() <= hay.len() && #[trigger] hay.subrange(i, i + needle.len()) == needle
}

/// Whether `needle` occurs in `hay` at `i`.
fn occurs_at(hay: &[u8], needle: &[u8], i: usize) -> (r: bool)
    requires
        i + needle@.len() <= hay@.len(),
    ensures
        r == (hay@.subrange(i as int, i + needle@.len()) == needle@),
{
    let n = hay.len();
    let m = needle.len();
    let mut j: usize = 0;
    while j < m
        invariant
            n == hay@.len(),
            m == needle@.len(),
            i + m <= hay@.len(),
            j <= m,
            forall|t: int| 0 <= t < j ==> hay@[i + t] == #[trigger] needle@[t],
        decreases m - j,
    {
        if hay[i + j] != needle[j] {
            proof {
                let s = hay@.subrange(i as int, i + m);
                assert(s[j as int] != needle@[j as int]);
            }
            return false;
        }
        j = j + 1;
    }
    assert(hay@.subrange(i as int, i + m) =~= needle@);
    true
}

/// Whether the artifact defines the bootstrap unit: whether a line of it
/// opens the bootstrap unit's entry.
pub fn defines_bootstrap(artifact: &str) -> (r: bool)
    ensures
        r == bytes_contain(artifact.spec_bytes(), BOOTSTRAP_ENTRY.spec_bytes()),
{
    let hay = artifact.as_bytes();
    let needle = BOOTSTRAP_ENTRY.as_bytes();
    let n = hay.len();
    let m = needle.len();
    if m > n {
        return false;
    }
    if m == 0 {
        assert(hay@.subrange(0int, 0int + needle@.len()) =~= needle@);
        return true;
    }
    let last = n - m;
    let mut i: usize = 0;
    while i <= last
        invariant
            last == n - m,
            m > 0,
            i <= last + 1,
            n == hay@.len(),
            m == needle@.len(),
            m <= n,
            hay@ == artifact.spec_bytes(),
            needle@ == BOOTSTRAP_ENTRY.spec_bytes(),
            forall|k: int| 0 <= k < i ==> #[trigger] hay@.subrange(k, k + m) != needle@,
        decreases last + 1 - i,
    {
        if occurs_at(hay, needle, i) {
            return true;
        }
        i = i + 1;
    }
    assert forall|k: int| 0 <= k && k + m <= n implies #[trigger] hay@.subrange(k, k + m) != needle@ by {
        assert(k < i);
    }
    false
}

} // verus!

//! The alias table: public names standing for real node names.
//!
//! The table is a list of `(alias, real)` pairs read from the alias
//! file, one `alias=real` entry per line.  Two views are taken of it:
//! alias-to-real when resolving a destination or a subscription
//! subject, and real-to-alias when rewriting an originator into its
//! public alias before delivery.  Resolution applies one lookup and
//! stops: well-formedness keeps every name from standing on both
//! sides, so there are no chains.

use vstd::prelude::*;

use crate::name::str_eq;
use crate::text::spec_trim;
use crate::text::trim;

verus! {

/// One `alias=real` entry.
pub struct AliasPair {
    pub alias: String,
    pub real: String,
}

impl View for AliasPair {
    type V = (Seq<char>, Seq<char>);

    open spec fn view(&self) -> (Seq<char>, Seq<char>) {
        (self.alias@, self.real@)
    }
}

impl DeepView for AliasPair {
    type V = (Seq<char>, Seq<char>);

    open spec fn deep_view(&self) -> (Seq<char>, Seq<char>) {
        self.view()
    }
}

/// The first `real` listed for `k` as an alias, if any.
pub open spec fn spec_lookup_real(ps: Seq<(Seq<char>, Seq<char>)>, k: Seq<char>) -> Option<
    Seq<char>,
>
    decreases ps.len(),
{
    if ps.len() == 0 {
        None
    } else if ps[0].0 == k {
        Some(ps[0].1)
    } else {
        spec_lookup_real(ps.drop_first(), k)
    }
}

/// The first `alias` listed for `k` as a real name, if any.
pub open spec fn spec_lookup_alias(ps: Seq<(Seq<char>, Seq<char>)>, k: Seq<char>) -> Option<
    Seq<char>,
>
    decreases ps.len(),
{
    if ps.len() == 0 {
        None
    } else if ps[0].1 == k {
        Some(ps[0].0)
    } else {
        spec_lookup_alias(ps.drop_first(), k)
    }
}

/// Alias-to-real resolution: the listed real name, or `k` unchanged.
pub open spec fn spec_resolve_real(ps: Seq<(Seq<char>, Seq<char>)>, k: Seq<char>) -> Seq<char> {
    match spec_lookup_real(ps, k) {
        Some(v) => v,
        None => k,
    }
}

/// Real-to-alias rewriting: the listed alias, or `k` unchanged.
pub open spec fn spec_resolve_alias(ps: Seq<(Seq<char>, Seq<char>)>, k: Seq<char>) -> Seq<char> {
    match spec_lookup_alias(ps, k) {
        Some(v) => v,
        None => k,
    }
}

/// The alias table.
pub struct AliasTable {
    pub pairs: Vec<AliasPair>,
}

impl View for AliasTable {
    type V = Seq<(Seq<char>, Seq<char>)>;

    open spec fn view(&self) -> Seq<(Seq<char>, Seq<char>)> {
        self.pairs.deep_view()
    }
}

impl AliasTable {
    /// Well-formedness: aliases are unique, and no name stands both as
    /// an alias and as a real name (in particular, no self-aliases and
    /// no chains).
    pub open spec fn wf(&self) -> bool {
        (forall|i: int, j: int|
            0 <= i < j < self@.len() ==> self@[i].0 != self@[j].0) && (forall|i: int, j: int|
            0 <= i < self@.len() && 0 <= j < self@.len() ==> self@[i].0 != self@[j].1)
    }

    /// An empty table.
    pub fn new() -> (r: AliasTable)
        ensures
            r@ == Seq::<(Seq<char>, Seq<char>)>::empty(),
            r.wf(),
    {
        AliasTable { pairs: Vec::new() }
    }

    /// Resolves a destination or subscription subject through
    /// alias-to-real.
    #[verifier::loop_isolation(false)]
    pub fn resolve_real(&self, k: &str) -> (r: String)
        ensures
            r@ == spec_resolve_real(self@, k@),
    {
        let n = self.pairs.len();
        let mut i: usize = 0;
        proof {
            assert(self@.skip(0) =~= self@);
        }
        while i < n
            invariant
                0 <= i <= n,
                n == self@.len(),
                spec_lookup_real(self@.skip(i as int), k@) == spec_lookup_real(self@, k@),
            decreases n - i,
        {
            proof {
                assert(self@[i as int] == self.pairs@[i as int]@);
                assert(self@.skip(i as int)[0] == self@[i as int]);
                assert(self@.skip(i as int).drop_first() =~= self@.skip(i as int + 1));
            }
            if str_eq(self.pairs[i].alias.as_str(), k) {
                return self.pairs[i].real.clone();
            }
            i = i + 1;
        }
        proof {
            assert(self@.skip(n as int) =~= Seq::<(Seq<char>, Seq<char>)>::empty());
        }
        String::from_str(k)
    }

    /// Rewrites an originator through real-to-alias.
    #[verifier::loop_isolation(false)]
    pub fn resolve_alias(&self, k: &str) -> (r: String)
        ensures
            r@ == spec_resolve_alias(self@, k@),
    {
        let n = self.pairs.len();
        let mut i: usize = 0;
        proof {
            assert(self@.skip(0) =~= self@);
        }
        while i < n
            invariant
                0 <= i <= n,
                n == self@.len(),
                spec_lookup_alias(self@.skip(i as int), k@) == spec_lookup_alias(self@, k@),
            decreases n - i,
        {
            proof {
                assert(self@[i as int] == self.pairs@[i as int]@);
                assert(self@.skip(i as int)[0] == self@[i as int]);
                assert(self@.skip(i as int).drop_first() =~= self@.skip(i as int + 1));
            }
            if str_eq(self.pairs[i].real.as_str(), k) {
                return self.pairs[i].alias.clone();
            }
            i = i + 1;
        }
        proof {
            assert(self@.skip(n as int) =~= Seq::<(Seq<char>, Seq<char>)>::empty());
        }
        String::from_str(k)
    }
}

/// A found lookup names a listed pair.
proof fn lemma_lookup_real_found(ps: Seq<(Seq<char>, Seq<char>)>, k: Seq<char>)
    ensures
        spec_lookup_real(ps, k) is Some ==> exists|i: int|
            0 <= i < ps.len() && ps[i].0 == k && ps[i].1 == spec_lookup_real(ps, k)->Some_0,
        spec_lookup_real(ps, k) is None ==> forall|i: int| 0 <= i < ps.len() ==> ps[i].0 != k,
    decreases ps.len(),
{
    if ps.len() > 0 && ps[0].0 != k {
        lemma_lookup_real_found(ps.drop_first(), k);
        if spec_lookup_real(ps, k) is Some {
            let t = ps.drop_first();
            let i = choose|i: int|
                0 <= i < t.len() && t[i].0 == k && t[i].1 == spec_lookup_real(t, k)->Some_0;
            assert(ps[i + 1].0 == k && ps[i + 1].1 == spec_lookup_real(ps, k)->Some_0);
        } else {
            assert forall|i: int| 0 <= i < ps.len() implies ps[i].0 != k by {
                if i >= 1 {
                    assert(ps.drop_first()[i - 1] == ps[i]);
                }
            }
        }
    }
}

/// Alias idempotence.  Under a well-formed table, resolving a name
/// that is already real is a no-op, and alias-to-real resolution is
/// idempotent: a second resolution changes nothing, so resolution
/// never chains.
pub proof fn lemma_alias_idempotent(t: &AliasTable, n: Seq<char>)
    requires
        t.wf(),
    ensures
        (exists|i: int| 0 <= i < t@.len() && t@[i].1 == n) ==> spec_resolve_real(t@, n) == n,
        spec_resolve_real(t@, spec_resolve_real(t@, n)) == spec_resolve_real(t@, n),
{
    lemma_lookup_real_found(t@, n);
    if exists|i: int| 0 <= i < t@.len() && t@[i].1 == n {
        let j = choose|j: int| 0 <= j < t@.len() && t@[j].1 == n;
        if spec_lookup_real(t@, n) is Some {
            let i = choose|i: int|
                0 <= i < t@.len() && t@[i].0 == n && t@[i].1 == spec_lookup_real(t@, n)->Some_0;
            assert(t@[i].0 != t@[j].1);
            assert(false);
        }
    }
    let r = spec_resolve_real(t@, n);
    if spec_lookup_real(t@, n) is Some {
        let i = choose|i: int|
            0 <= i < t@.len() && t@[i].0 == n && t@[i].1 == spec_lookup_real(t@, n)->Some_0;
        assert(t@[i].1 == r);
        lemma_lookup_real_found(t@, r);
        if spec_lookup_real(t@, r) is Some {
            let w = choose|w: int|
                0 <= w < t@.len() && t@[w].0 == r && t@[w].1 == spec_lookup_real(t@, r)->Some_0;
            assert(t@[w].0 != t@[i].1);
            assert(false);
        }
    }
}

/// Index of the first `=` in `s`, or `s.len()` if there is none.
pub open spec fn first_eq(s: Seq<char>) -> int
    decreases s.len(),
{
    if s.len() == 0 {
        0
    } else if s[0] == '=' {
        0
    } else {
        1 + first_eq(s.drop_first())
    }
}

proof fn lemma_first_eq_at(s: Seq<char>, i: int)
    requires
        0 <= i <= s.len(),
        forall|k: int| 0 <= k < i ==> s[k] != '=',
        i < s.len() ==> s[i] == '=',
    ensures
        first_eq(s) == i,
    decreases s.len(),
{
    if s.len() != 0 && s[0] != '=' {
        assert(i >= 1);
        assert(forall|k: int| 0 <= k < i - 1 ==> s.drop_first()[k] == s[k + 1] && s[k + 1] != '=');
        lemma_first_eq_at(s.drop_first(), i - 1);
    }
}

/// The entry a line yields, before the conflict checks: the trimmed
/// text on each side of the first `=`, or nothing without an `=`.
pub open spec fn line_alias(line: Seq<char>) -> Option<(Seq<char>, Seq<char>)> {
    if first_eq(line) == line.len() {
        None
    } else {
        Some(
            (
                spec_trim(line.subrange(0, first_eq(line))),
                spec_trim(line.subrange(first_eq(line) + 1, line.len() as int)),
            ),
        )
    }
}

/// Adds an entry to the table unless it would break well-formedness:
/// an empty side, a self-alias, an alias already listed, an alias
/// already used as a real name, or a real name already used as an
/// alias all make the entry ignored.
pub open spec fn spec_add_alias(
    acc: Seq<(Seq<char>, Seq<char>)>,
    a: Seq<char>,
    r: Seq<char>,
) -> Seq<(Seq<char>, Seq<char>)> {
    if a.len() > 0 && r.len() > 0 && a != r && (forall|i: int|
        0 <= i < acc.len() ==> acc[i].0 != a && acc[i].1 != a && acc[i].0 != r) {
        acc.push((a, r))
    } else {
        acc
    }
}

/// The pairs an alias file yields, line by line.
pub open spec fn spec_parse_aliases(lines: Seq<Seq<char>>) -> Seq<(Seq<char>, Seq<char>)>
    decreases lines.len(),
{
    if lines.len() == 0 {
        Seq::empty()
    } else {
        let acc = spec_parse_aliases(lines.drop_last());
        match line_alias(lines.last()) {
            Some(p) => spec_add_alias(acc, p.0, p.1),
            None => acc,
        }
    }
}

/// Every table the parser builds is well-formed.
pub proof fn lemma_parse_aliases_wf(lines: Seq<Seq<char>>)
    ensures
        (forall|i: int, j: int|
            0 <= i < j < spec_parse_aliases(lines).len() ==> spec_parse_aliases(lines)[i].0
                != spec_parse_aliases(lines)[j].0),
        (forall|i: int, j: int|
            0 <= i < spec_parse_aliases(lines).len() && 0 <= j < spec_parse_aliases(lines).len()
                ==> spec_parse_aliases(lines)[i].0 != spec_parse_aliases(lines)[j].1),
    decreases lines.len(),
{
    if lines.len() > 0 {
        lemma_parse_aliases_wf(lines.drop_last());
        let acc = spec_parse_aliases(lines.drop_last());
        let cur = spec_parse_aliases(lines);
        match line_alias(lines.last()) {
            Some(p) => {
                let a = p.0;
                let r = p.1;
                if a.len() > 0 && r.len() > 0 && a != r && (forall|i: int|
                    0 <= i < acc.len() ==> acc[i].0 != a && acc[i].1 != a && acc[i].0 != r) {
                    assert(cur == acc.push((a, r)));
                    assert forall|i: int, j: int| 0 <= i < j < cur.len() implies cur[i].0
                        != cur[j].0 by {
                        assert(cur[i] == acc[i]);
                        if j < acc.len() {
                            assert(cur[j] == acc[j]);
                        } else {
                            assert(cur[j] == (a, r));
                        }
                    }
                    assert forall|i: int, j: int|
                        0 <= i < cur.len() && 0 <= j < cur.len() implies cur[i].0 != cur[j].1 by {
                        if i < acc.len() {
                            assert(cur[i] == acc[i]);
                        } else {
                            assert(cur[i] == (a, r));
                        }
                        if j < acc.len() {
                            assert(cur[j] == acc[j]);
                        } else {
                            assert(cur[j] == (a, r));
                        }
                    }
                } else {
                    assert(cur == acc);
                }
            },
            None => {
                assert(cur == acc);
            },
        }
    }
}

impl AliasTable {
    /// Loads the table from the alias file, given as its lines: one
    /// `alias=real` entry per line, sides trimmed; lines without `=`
    /// and entries that would break well-formedness are ignored.
    #[verifier::loop_isolation(false)]
    pub fn load(lines: &Vec<String>) -> (r: AliasTable)
        ensures
            r@ == spec_parse_aliases(lines.deep_view()),
            r.wf(),
    {
        let n = lines.len();
        let mut table = AliasTable::new();
        let mut i: usize = 0;
        while i < n
            invariant
                0 <= i <= n,
                n == lines@.len(),
                table@ =~= spec_parse_aliases(lines.deep_view().take(i as int)),
            decreases n - i,
        {
            proof {
                let lv = lines.deep_view();
                assert(lv.take(i as int + 1).drop_last() =~= lv.take(i as int));
                assert(lv.take(i as int + 1).last() == lv[i as int]);
            }
            let line = lines[i].as_str();
            proof {
                assert(line@ == lines.deep_view()[i as int]);
            }
            let m: usize = line.unicode_len();
            let mut e: usize = 0;
            while e < m && line.get_char(e) != '='
                invariant
                    0 <= e <= m,
                    m == line@.len(),
                    forall|k: int| 0 <= k < e ==> line@[k] != '=',
                decreases m - e,
            {
                e = e + 1;
            }
            proof {
                lemma_first_eq_at(line@, e as int);
            }
            if e < m {
                let a = trim(line.substring_char(0, e));
                let r = trim(line.substring_char(e + 1, m));
                proof {
                    assert(line_alias(line@) == Some((a@, r@)));
                }
                table.add(a, r);
            } else {
                proof {
                    assert(line_alias(line@) is None);
                }
            }
            i = i + 1;
        }
        proof {
            assert(lines.deep_view().take(n as int) =~= lines.deep_view());
            lemma_parse_aliases_wf(lines.deep_view());
        }
        table
    }

    /// Adds one entry, ignoring it if it would break well-formedness.
    #[verifier::loop_isolation(false)]
    fn add(&mut self, a: String, r: String)
        ensures
            final(self)@ == spec_add_alias(old(self)@, a@, r@),
    {
        let mut ok = !a.as_str().is_empty() && !r.as_str().is_empty() && !str_eq(
            a.as_str(),
            r.as_str(),
        );
        let n = self.pairs.len();
        let mut i: usize = 0;
        while i < n
            invariant
                0 <= i <= n,
                n == self@.len(),
                self@ == old(self)@,
                ok == (a@.len() > 0 && r@.len() > 0 && a@ != r@ && (forall|k: int|
                    0 <= k < i ==> self@[k].0 != a@ && self@[k].1 != a@ && self@[k].0 != r@)),
            decreases n - i,
        {
            proof {
                assert(self@[i as int] == self.pairs@[i as int]@);
            }
            if ok {
                let p = &self.pairs[i];
                if str_eq(p.alias.as_str(), a.as_str()) || str_eq(p.real.as_str(), a.as_str())
                    || str_eq(p.alias.as_str(), r.as_str()) {
                    ok = false;
                }
            }
            i = i + 1;
        }
        if ok {
            let ghost oldv = self@;
            self.pairs.push(AliasPair { alias: a, real: r });
            proof {
                assert(self@ =~= oldv.push((a@, r@)));
            }
        }
    }
}

} // verus!

//! Certificates: the states of an analysis in writing.
use crate::compact::domain::NUM_VARS;
use crate::domains::zone::dbm::{Dbm, Zone, INF};
use crate::text::{dec, is_white, push_dec, push_nat};
use crate::tokens::{
    all_digits, finished_word, is_digit, law_numbers_read_back, lemma_words_of_white,
    lemma_words_of_word, parse_i32, parse_usize, parsed_in, solid, spellings, split_words, words,
    words_from,
};
use vstd::prelude::*;

verus! {

/// The states of an analysis: a matrix for each instruction that was reached.
#[derive(Debug)]
pub struct Certificate {
    pub pcs: usize,
    pub dim: usize,
    pub states: Vec<Option<Dbm>>,
}

/// The matrices of some states.
pub open spec fn matrices(v: Seq<Option<Dbm>>) -> Seq<Option<Seq<Seq<i64>>>> {
    Seq::new(
        v.len(),
        |i: int|
            match v[i] {
                Some(d) => Some(d@.m),
                None => None,
            },
    )
}

/// What is wrong with a certificate in writing.
#[derive(Debug, Clone, Copy, PartialEq, Eq, Structural)]
pub enum CertError {
    MissingPcs,
    BadPcs,
    MissingDim,
    BadDim,
    MissingTag,
    BadTag,
    MissingEntry,
    BadEntry,
}

impl CertError {
    pub open spec fn spec_message(self) -> &'static str {
        match self {
            CertError::MissingPcs => "pcs",
            CertError::BadPcs => "pcs parse",
            CertError::MissingDim => "dim",
            CertError::BadDim => "dim parse",
            CertError::MissingTag => "pc tag",
            CertError::BadTag => "bad tag",
            CertError::MissingEntry => "matrix token",
            CertError::BadEntry => "int parse",
        }
    }

    /// The error in words.
    #[verifier::when_used_as_spec(spec_message)]
    pub fn message(self) -> (r: &'static str)
        ensures
            r == self.spec_message(),
    {
        match self {
            CertError::MissingPcs => "pcs",
            CertError::BadPcs => "pcs parse",
            CertError::MissingDim => "dim",
            CertError::BadDim => "dim parse",
            CertError::MissingTag => "pc tag",
            CertError::BadTag => "bad tag",
            CertError::MissingEntry => "matrix token",
            CertError::BadEntry => "int parse",
        }
    }
}

/// A bound in writing.
pub open spec fn bound_text(v: i64) -> Seq<char> {
    if v >= INF { "INF"@ } else { dec(v as int) }
}

/// The first `n` bounds of a row, a space behind each.
pub open spec fn bounds_text(row: Seq<i64>, n: nat) -> Seq<char>
    decreases n,
{
    if n == 0 {
        Seq::empty()
    } else {
        bounds_text(row, (n - 1) as nat) + bound_text(row[n - 1]) + " "@
    }
}

/// The first `n` rows of a matrix, each on a line.
pub open spec fn rows_text(m: Seq<Seq<i64>>, dim: nat, n: nat) -> Seq<char>
    decreases n,
{
    if n == 0 {
        Seq::empty()
    } else {
        rows_text(m, dim, (n - 1) as nat) + bounds_text(m[n - 1], dim) + "\n"@
    }
}

/// A state in writing.
pub open spec fn state_text(s: Option<Seq<Seq<i64>>>, dim: nat) -> Seq<char> {
    match s {
        None => "U\n"@,
        Some(m) => "R\n"@ + rows_text(m, dim, dim),
    }
}

/// The first `n` states in writing.
pub open spec fn states_text(v: Seq<Option<Seq<Seq<i64>>>>, dim: nat, n: nat) -> Seq<char>
    decreases n,
{
    if n == 0 {
        Seq::empty()
    } else {
        states_text(v, dim, (n - 1) as nat) + state_text(v[n - 1], dim)
    }
}

/// A certificate in writing.
pub open spec fn certificate_text(pcs: nat, dim: nat, v: Seq<Option<Seq<Seq<i64>>>>) -> Seq<char> {
    dec(pcs as int) + " "@ + dec(dim as int) + "\n"@ + states_text(v, dim, pcs)
}

/// A bound out of a word.
pub open spec fn read_bound(t: Seq<char>) -> Option<i64> {
    if t == "INF"@ {
        Some(INF)
    } else {
        match parsed_in(t, true, i32::MIN as int, i32::MAX as int) {
            Some(n) => Some(n as i64),
            None => None,
        }
    }
}

/// The first `n` bounds among the words from `at` on.
pub open spec fn read_bounds(t: Seq<Seq<char>>, at: int, n: nat) -> Result<Seq<i64>, CertError>
    decreases n,
{
    if n == 0 {
        Ok(Seq::empty())
    } else {
        match read_bounds(t, at, (n - 1) as nat) {
            Err(e) => Err(e),
            Ok(s) => if at + n - 1 >= t.len() {
                Err(CertError::MissingEntry)
            } else {
                match read_bound(t[at + n - 1]) {
                    None => Err(CertError::BadEntry),
                    Some(v) => Ok(s.push(v)),
                }
            },
        }
    }
}

/// Bounds as a square matrix.
pub open spec fn as_matrix(s: Seq<i64>, dim: nat) -> Seq<Seq<i64>> {
    Seq::new(dim, |i: int| Seq::new(dim, |j: int| s[dim * i + j]))
}

/// The state among the words from `at` on, and where the words go on.
pub open spec fn read_state(t: Seq<Seq<char>>, at: int, dim: nat) -> Result<
    (Option<Seq<Seq<i64>>>, int),
    CertError,
> {
    if at >= t.len() {
        Err(CertError::MissingTag)
    } else if t[at] == "U"@ {
        Ok((None, at + 1))
    } else if t[at] == "R"@ {
        match read_bounds(t, at + 1, dim * dim) {
            Err(e) => Err(e),
            Ok(s) => Ok((Some(as_matrix(s, dim)), at + 1 + dim * dim)),
        }
    } else {
        Err(CertError::BadTag)
    }
}

/// The first `n` states among the words from `at` on, and where the words go
/// on.
pub open spec fn read_states(t: Seq<Seq<char>>, at: int, dim: nat, n: nat) -> Result<
    (Seq<Option<Seq<Seq<i64>>>>, int),
    CertError,
>
    decreases n,
{
    if n == 0 {
        Ok((Seq::empty(), at))
    } else {
        match read_states(t, at, dim, (n - 1) as nat) {
            Err(e) => Err(e),
            Ok((v, k)) => match read_state(t, k, dim) {
                Err(e) => Err(e),
                Ok((s, k)) => Ok((v.push(s), k)),
            },
        }
    }
}

/// The model of a certificate.
#[verifier::ext_equal]
pub ghost struct Claim {
    pub pcs: usize,
    pub dim: usize,
    pub states: Seq<Option<Seq<Seq<i64>>>>,
}

/// The certificate that words write.
pub open spec fn read_words(t: Seq<Seq<char>>) -> Result<Claim, CertError> {
    if t.len() == 0 {
        Err(CertError::MissingPcs)
    } else {
        match parsed_in(t[0], false, 0, usize::MAX as int) {
            None => Err(CertError::BadPcs),
            Some(pcs) => if t.len() == 1 {
                Err(CertError::MissingDim)
            } else {
                match parsed_in(t[1], false, 0, usize::MAX as int) {
                    None => Err(CertError::BadDim),
                    Some(dim) => match read_states(t, 2, dim as nat, pcs as nat) {
                        Err(e) => Err(e),
                        Ok((states, _)) => Ok(
                            Claim { pcs: pcs as usize, dim: dim as usize, states },
                        ),
                    },
                }
            },
        }
    }
}

fn is_word(t: &Vec<char>, w: &str) -> (r: bool)
    ensures
        r == (t@ == w@),
{
    let n: usize = w.unicode_len();
    if t.len() != n {
        return false;
    }
    let mut i: usize = 0;
    while i < n
        invariant
            i <= n,
            n == w@.len(),
            n == t@.len(),
            forall|k: int| 0 <= k < i ==> t@[k] == w@[k],
        decreases n - i,
    {
        if t[i] != w.get_char(i) {
            return false;
        }
        i = i + 1;
    }
    assert(t@ =~= w@);
    true
}

/// Nothing is known of ranges and origins.
pub open spec fn only_matrix(z: Zone, n: nat) -> bool {
    z.bounds == Zone::top(n).bounds && z.prov is None
}

impl Certificate {
    pub open spec fn view(&self) -> Claim {
        Claim { pcs: self.pcs, dim: self.dim, states: matrices(self.states@) }
    }

    /// There is a state for each instruction, and a bound for each pair of
    /// variables.
    pub open spec fn wf(&self) -> bool {
        &&& self.states@.len() == self.pcs
        &&& forall|i: int|
            0 <= i < self.states@.len() ==> ((#[trigger] self.states@[i]) matches Some(d)
                ==> d.wf() && d@.m.len() == self.dim)
    }

    /// No state says more than its matrix does.
    pub open spec fn plain(&self) -> bool {
        forall|i: int|
            0 <= i < self.states@.len() ==> ((#[trigger] self.states@[i]) matches Some(d)
                ==> only_matrix(d@, self.dim as nat))
    }

    /// The certificate of an analysis over the twelve variables.
    pub fn from_states(states: Vec<Option<Dbm>>) -> (r: Self)
        ensures
            r.pcs == states@.len(),
            r.dim == NUM_VARS,
            r.states == states,
    {
        let pcs: usize = states.len();
        Certificate { pcs, dim: NUM_VARS, states }
    }

    /// Appends the certificate to a text.
    pub fn write_to(&self, w: &mut String)
        requires
            self.wf(),
        ensures
            final(w)@ == old(w)@ + certificate_text(
                self.pcs as nat,
                self.dim as nat,
                matrices(self.states@),
            ),
    {
        let ghost before = w@;
        let ghost v = matrices(self.states@);
        let ghost dim = self.dim as nat;
        push_nat(w, self.pcs as u64);
        w.append(" ");
        push_nat(w, self.dim as u64);
        w.append("\n");
        let ghost head = dec(self.pcs as int) + " "@ + dec(self.dim as int) + "\n"@;
        assert(w@ =~= before + head);
        let mut pc: usize = 0;
        assert(w@ =~= before + head + states_text(v, dim, 0));
        while pc < self.pcs
            invariant
                self.wf(),
                pc <= self.pcs,
                v == matrices(self.states@),
                dim == self.dim,
                w@ == before + head + states_text(v, dim, pc as nat),
            decreases self.pcs - pc,
        {
            let ghost so_far = w@;
            match &self.states[pc] {
                None => {
                    w.append("U\n");
                },
                Some(d) => {
                    w.append("R\n");
                    write_rows(w, d, self.dim);
                },
            }
            assert(v[pc as int] == match self.states@[pc as int] {
                Some(d) => Some(d@.m),
                None => None,
            });
            assert(w@ =~= so_far + state_text(v[pc as int], dim));
            assert(w@ =~= before + head + states_text(v, dim, (pc + 1) as nat));
            pc = pc + 1;
        }
        assert(w@ =~= before + (head + states_text(v, dim, self.pcs as nat)));
    }

    /// The certificate that a text writes.
    pub fn read_from(s: &str) -> (r: Result<Certificate, CertError>)
        ensures
            match r {
                Ok(c) => c.wf() && c.plain() && read_words(words(s@)) == Ok::<Claim, CertError>(c@),
                Err(e) => read_words(words(s@)) == Err::<Claim, CertError>(e),
            },
    {
        let t: Vec<Vec<char>> = split_words(s);
        let ghost ts = words(s@);
        assert(forall|i: int| 0 <= i < t@.len() ==> spellings(t@)[i] == (#[trigger] t@[i])@);
        if t.len() == 0 {
            return Err(CertError::MissingPcs);
        }
        let pcs: usize = match parse_usize(&t[0]) {
            Some(n) => n,
            None => {
                return Err(CertError::BadPcs);
            },
        };
        if t.len() == 1 {
            return Err(CertError::MissingDim);
        }
        let dim: usize = match parse_usize(&t[1]) {
            Some(n) => n,
            None => {
                return Err(CertError::BadDim);
            },
        };
        let mut states: Vec<Option<Dbm>> = Vec::new();
        let mut at: usize = 2;
        let mut i: usize = 0;
        assert(matrices(states@) =~= Seq::empty());
        while i < pcs
            invariant
                i <= pcs,
                2 <= at <= t@.len(),
                ts == spellings(t@),
                ts == words(s@),
                states@.len() == i,
                forall|k: int|
                    0 <= k < states@.len() ==> ((#[trigger] states@[k]) matches Some(d) ==> d.wf()
                        && d@.m.len() == dim && only_matrix(d@, dim as nat)),
                read_states(ts, 2, dim as nat, i as nat) == Ok::<
                    (Seq<Option<Seq<Seq<i64>>>>, int),
                    CertError,
                >((matrices(states@), at as int)),
                ts.len() >= 2,
                parsed_in(ts[0], false, 0, usize::MAX as int) == Some(pcs as int),
                parsed_in(ts[1], false, 0, usize::MAX as int) == Some(dim as int),
                read_words(ts) == match read_states(ts, 2, dim as nat, pcs as nat) {
                    Err(e) => Err::<Claim, CertError>(e),
                    Ok((v, _)) => Ok(Claim { pcs, dim, states: v }),
                },
            decreases pcs - i,
        {
            let ghost before = states@;
            proof {
                if read_states(ts, 2, dim as nat, (i + 1) as nat) is Err {
                    lemma_errors_stay(ts, 2, dim as nat, (i + 1) as nat, pcs as nat);
                }
            }
            if at >= t.len() {
                return Err(CertError::MissingTag);
            }
            assert(ts[at as int] == t@[at as int]@);
            if is_word(&t[at], "U") {
                states.push(None);
                at = at + 1;
            } else if is_word(&t[at], "R") {
                match read_matrix(&t, at + 1, dim) {
                    Err(e) => {
                        return Err(e);
                    },
                    Ok((d, next)) => {
                        states.push(Some(d));
                        at = next;
                    },
                }
            } else {
                return Err(CertError::BadTag);
            }
            assert(matrices(states@) =~= matrices(before).push(matrices(states@)[i as int]));
            i = i + 1;
        }
        Ok(Certificate { pcs, dim, states })
    }
}

proof fn lemma_errors_stay(t: Seq<Seq<char>>, at: int, dim: nat, k: nat, n: nat)
    requires
        k <= n,
        read_states(t, at, dim, k) is Err,
    ensures
        read_states(t, at, dim, n) == read_states(t, at, dim, k),
    decreases n,
{
    if k < n {
        lemma_errors_stay(t, at, dim, k, (n - 1) as nat);
    }
}

proof fn lemma_bound_errors_stay(t: Seq<Seq<char>>, at: int, k: nat, n: nat)
    requires
        k <= n,
        read_bounds(t, at, k) is Err,
    ensures
        read_bounds(t, at, n) == read_bounds(t, at, k),
    decreases n,
{
    if k < n {
        lemma_bound_errors_stay(t, at, k, (n - 1) as nat);
    }
}

fn write_rows(w: &mut String, d: &Dbm, dim: usize)
    requires
        d.wf(),
        d@.m.len() == dim,
    ensures
        final(w)@ == old(w)@ + rows_text(d@.m, dim as nat, dim as nat),
{
    let ghost before = w@;
    let mut i: usize = 0;
    assert(w@ =~= before + rows_text(d@.m, dim as nat, 0));
    while i < dim
        invariant
            d.wf(),
            d@.m.len() == dim,
            i <= dim,
            w@ == before + rows_text(d@.m, dim as nat, i as nat),
        decreases dim - i,
    {
        let ghost so_far = w@;
        let mut j: usize = 0;
        assert(w@ =~= so_far + bounds_text(d@.m[i as int], 0));
        while j < dim
            invariant
                d.wf(),
                d@.m.len() == dim,
                i < dim,
                j <= dim,
                w@ == so_far + bounds_text(d@.m[i as int], j as nat),
            decreases dim - j,
        {
            let ghost here = w@;
            let v: i64 = d.raw(i, j);
            if v >= INF {
                w.append("INF");
            } else {
                push_dec(w, v);
            }
            w.append(" ");
            assert(w@ =~= here + bound_text(v) + " "@);
            assert(w@ =~= so_far + bounds_text(d@.m[i as int], (j + 1) as nat));
            j = j + 1;
        }
        w.append("\n");
        assert(w@ =~= before + rows_text(d@.m, dim as nat, (i + 1) as nat));
        i = i + 1;
    }
}

fn read_matrix(t: &Vec<Vec<char>>, from: usize, dim: usize) -> (r: Result<(Dbm, usize), CertError>)
    requires
        from <= t@.len(),
    ensures
        match r {
            Ok((d, at)) => {
                &&& d.wf()
                &&& only_matrix(d@, dim as nat)
                &&& d@.m.len() == dim
                &&& at == from + dim * dim
                &&& at <= t@.len()
                &&& read_bounds(spellings(t@), from as int, (dim * dim) as nat) is Ok
                &&& d@.m == as_matrix(
                    read_bounds(spellings(t@), from as int, (dim * dim) as nat)->Ok_0,
                    dim as nat,
                )
            },
            Err(e) => read_bounds(spellings(t@), from as int, (dim * dim) as nat) == Err::<
                Seq<i64>,
                CertError,
            >(e),
        },
{
    let ghost ts = spellings(t@);
    let ghost total = (dim * dim) as nat;
    let mut d: Dbm = Dbm::with_dim(dim);
    let mut at: usize = from;
    let ghost mut got: Seq<i64> = Seq::empty();
    let mut i: usize = 0;
    proof {
        assert(dim * 0 == 0) by (nonlinear_arith);
    }
    while i < dim
        invariant
            i <= dim,
            total == dim * dim,
            ts == spellings(t@),
            d.wf(),
            only_matrix(d@, dim as nat),
            d@.m.len() == dim,
            at == from + dim * i,
            from <= at <= t@.len(),
            got.len() == dim * i,
            read_bounds(ts, from as int, (dim * i) as nat) == Ok::<Seq<i64>, CertError>(got),
            forall|p: int, q: int|
                0 <= p < i && 0 <= q < dim ==> #[trigger] d@.m[p][q] == got[dim * p + q],
        decreases dim - i,
    {
        let ghost base = dim * i;
        proof {
            assert(dim * i + dim <= dim * dim) by (nonlinear_arith)
                requires
                    i < dim,
            ;
            assert(dim * (i + 1) == dim * i + dim) by (nonlinear_arith);
        }
        let mut j: usize = 0;
        while j < dim
            invariant
                i < dim,
                j <= dim,
                total == dim * dim,
                base == dim * i,
                base + dim <= total,
                ts == spellings(t@),
                d.wf(),
                only_matrix(d@, dim as nat),
                d@.m.len() == dim,
                at == from + base + j,
                from <= at <= t@.len(),
                got.len() == base + j,
                read_bounds(ts, from as int, (base + j) as nat) == Ok::<Seq<i64>, CertError>(got),
                forall|p: int, q: int|
                    0 <= p < i && 0 <= q < dim ==> #[trigger] d@.m[p][q] == got[dim * p + q],
                forall|q: int| 0 <= q < j ==> #[trigger] d@.m[i as int][q] == got[base + q],
            decreases dim - j,
        {
            proof {
                if read_bounds(ts, from as int, (base + j + 1) as nat) is Err {
                    lemma_bound_errors_stay(ts, from as int, (base + j + 1) as nat, total);
                }
            }
            if at >= t.len() {
                return Err(CertError::MissingEntry);
            }
            assert(ts[at as int] == t@[at as int]@);
            let v: i64 = if is_word(&t[at], "INF") {
                INF
            } else {
                match parse_i32(&t[at]) {
                    Some(n) => n as i64,
                    None => {
                        return Err(CertError::BadEntry);
                    },
                }
            };
            let ghost was = got;
            d.set_idx(i, j, v);
            proof {
                got = got.push(v);
                assert forall|p: int, q: int| 0 <= p < i && 0 <= q < dim implies #[trigger] d@.m[p][q]
                    == got[dim * p + q] by {
                    assert(dim * p + q < dim * i) by (nonlinear_arith)
                        requires
                            0 <= p < i,
                            0 <= q < dim,
                    ;
                    assert(0 <= dim * p) by (nonlinear_arith)
                        requires
                            0 <= p,
                            0 <= dim,
                    ;
                    assert(got[dim * p + q] == was[dim * p + q]);
                }
            }
            at = at + 1;
            j = j + 1;
        }
        proof {
            assert forall|p: int, q: int| 0 <= p < i + 1 && 0 <= q < dim implies #[trigger] d@.m[p][q]
                == got[dim * p + q] by {}
        }
        i = i + 1;
    }
    proof {
        let want = as_matrix(got, dim as nat);
        assert forall|p: int| 0 <= p < dim implies d@.m[p] == want[p] by {
            assert(d@.m[p] =~= want[p]);
        }
        assert(d@.m =~= want);
    }
    Ok((d, at))
}

/// Whether a bound can be read back: bounds that say nothing are all the same,
/// and others are 32-bit numbers.
pub open spec fn readable(v: i64) -> bool {
    v >= INF || i32::MIN <= v <= i32::MAX
}

/// A bound as it is read back.
pub open spec fn reread(v: i64) -> i64 {
    if v >= INF { INF } else { v }
}

/// A state as it is read back.
pub open spec fn reread_state(s: Option<Seq<Seq<i64>>>) -> Option<Seq<Seq<i64>>> {
    match s {
        None => None,
        Some(m) => Some(
            Seq::new(m.len(), |i: int| Seq::new(m[i].len(), |j: int| reread(m[i][j]))),
        ),
    }
}

/// The first `n` rows of a matrix one after another.
spec fn flat(m: Seq<Seq<i64>>, n: nat) -> Seq<i64>
    decreases n,
{
    if n == 0 { Seq::empty() } else { flat(m, (n - 1) as nat) + m[n - 1] }
}

/// Bounds in writing.
spec fn bound_words(s: Seq<i64>) -> Seq<Seq<char>> {
    Seq::new(s.len(), |i: int| bound_text(s[i]))
}

/// The words of a state.
spec fn state_words(s: Option<Seq<Seq<i64>>>, dim: nat) -> Seq<Seq<char>> {
    match s {
        None => seq!["U"@],
        Some(m) => seq!["R"@] + bound_words(flat(m, dim)),
    }
}

/// The words of the first `n` states.
spec fn all_words(v: Seq<Option<Seq<Seq<i64>>>>, dim: nat, n: nat) -> Seq<Seq<char>>
    decreases n,
{
    if n == 0 {
        Seq::empty()
    } else {
        all_words(v, dim, (n - 1) as nat) + state_words(v[n - 1], dim)
    }
}

spec fn square_or_none(s: Option<Seq<Seq<i64>>>, dim: nat) -> bool {
    s matches Some(m) ==> m.len() == dim && (forall|i: int|
        0 <= i < dim ==> (#[trigger] m[i]).len() == dim)
}

/// Nothing, or text that ends with whitespace.
spec fn closed_off(s: Seq<char>) -> bool {
    s.len() == 0 || is_white(s.last())
}

proof fn lemma_literals()
    ensures
        " "@ == seq![' '],
        "\n"@ == seq!['\n'],
        "U\n"@ == "U"@ + "\n"@,
        "R\n"@ == "R"@ + "\n"@,
        solid("U"@) && "U"@.len() == 1,
        solid("R"@) && "R"@.len() == 1,
        solid("INF"@) && "INF"@.len() == 3,
        "U"@ != "R"@,
        "INF"@[0] == 'I',
{
    reveal_strlit(" ");
    reveal_strlit("\n");
    reveal_strlit("U\n");
    reveal_strlit("R\n");
    reveal_strlit("U");
    reveal_strlit("R");
    reveal_strlit("INF");
    assert(" "@ =~= seq![' ']);
    assert("\n"@ =~= seq!['\n']);
    assert("U\n"@ =~= "U"@ + "\n"@);
    assert("R\n"@ =~= "R"@ + "\n"@);
    assert("U"@[0] == 'U' && "R"@[0] == 'R');
}

proof fn lemma_bound_is_a_word(v: i64)
    ensures
        solid(bound_text(v)),
        bound_text(v).len() > 0,
{
    lemma_literals();
    law_numbers_read_back(v as int);
}

proof fn lemma_words_of_sum(a: Seq<char>, b: Seq<char>)
    requires
        closed_off(a),
    ensures
        words(a + b) == words(a) + words(b),
{
    if a.len() == 0 {
        assert(a + b =~= b);
        assert(words(a) + words(b) =~= words(b));
    } else {
        lemma_words_of_longer(a, b, Seq::empty());
    }
}

proof fn lemma_words_of_longer(a: Seq<char>, b: Seq<char>, begun: Seq<char>)
    requires
        a.len() > 0,
        is_white(a.last()),
    ensures
        words_from(a + b, begun) == words_from(a, begun) + words(b),
    decreases a.len(),
{
    assert((a + b)[0] == a[0]);
    assert((a + b).skip(1) =~= a.skip(1) + b);
    if a.len() == 1 {
        assert(a.skip(1) =~= Seq::empty());
        assert(a.skip(1) + b =~= b);
        assert(finished_word(begun) + words_from(Seq::empty(), Seq::empty()) =~= finished_word(begun));
    } else {
        assert(a.skip(1).last() == a.last());
        if is_white(a[0]) {
            lemma_words_of_longer(a.skip(1), b, Seq::empty());
            assert(finished_word(begun) + (words_from(a.skip(1), Seq::empty()) + words(b))
                =~= finished_word(begun) + words_from(a.skip(1), Seq::empty()) + words(b));
        } else {
            lemma_words_of_longer(a.skip(1), b, begun.push(a[0]));
        }
    }
}

proof fn lemma_words_of_one(w: Seq<char>, c: char)
    requires
        solid(w),
        w.len() > 0,
        is_white(c),
    ensures
        words(w + seq![c]) == seq![w],
{
    lemma_words_of_word(Seq::empty(), w, c, Seq::empty());
    assert(w + seq![c] + Seq::empty() =~= w + seq![c]);
    assert(Seq::empty() + w =~= w);
    assert(words(Seq::empty()) =~= Seq::empty());
    assert(seq![w] + words(Seq::empty()) =~= seq![w]);
}

proof fn lemma_words_of_bounds(row: Seq<i64>, n: nat)
    requires
        n <= row.len(),
    ensures
        words(bounds_text(row, n)) == bound_words(row.take(n as int)),
        closed_off(bounds_text(row, n)),
    decreases n,
{
    if n == 0 {
        assert(words(Seq::empty()) =~= Seq::empty());
        assert(bound_words(row.take(0)) =~= Seq::empty());
    } else {
        lemma_literals();
        lemma_words_of_bounds(row, (n - 1) as nat);
        let a = bounds_text(row, (n - 1) as nat);
        let w = bound_text(row[n - 1]);
        lemma_bound_is_a_word(row[n - 1]);
        lemma_words_of_one(w, ' ');
        lemma_words_of_sum(a, w + seq![' ']);
        assert(bounds_text(row, n) =~= a + (w + seq![' ']));
        assert(bound_words(row.take(n as int)) =~= bound_words(row.take(n - 1)) + seq![w]);
    }
}

proof fn lemma_words_of_rows(m: Seq<Seq<i64>>, dim: nat, n: nat)
    requires
        n <= m.len(),
        forall|i: int| 0 <= i < m.len() ==> (#[trigger] m[i]).len() == dim,
    ensures
        words(rows_text(m, dim, n)) == bound_words(flat(m, n)),
        closed_off(rows_text(m, dim, n)),
    decreases n,
{
    if n == 0 {
        assert(words(Seq::empty()) =~= Seq::empty());
        assert(bound_words(flat(m, 0)) =~= Seq::empty());
    } else {
        lemma_literals();
        lemma_words_of_rows(m, dim, (n - 1) as nat);
        let a = rows_text(m, dim, (n - 1) as nat);
        let row = m[n - 1];
        let b = bounds_text(row, dim);
        lemma_words_of_bounds(row, dim);
        assert(row.take(dim as int) =~= row);
        lemma_words_of_sum(b, "\n"@);
        lemma_words_of_white('\n', Seq::empty());
        assert(seq!['\n'] + Seq::empty() =~= seq!['\n']);
        assert(words(Seq::empty()) =~= Seq::empty());
        assert(words(b) + words("\n"@) =~= words(b));
        lemma_words_of_sum(a, b + "\n"@);
        assert(rows_text(m, dim, n) =~= a + (b + "\n"@));
        assert(bound_words(flat(m, n)) =~= bound_words(flat(m, (n - 1) as nat)) + bound_words(row));
    }
}

proof fn lemma_words_of_state(s: Option<Seq<Seq<i64>>>, dim: nat)
    requires
        square_or_none(s, dim),
    ensures
        words(state_text(s, dim)) == state_words(s, dim),
        closed_off(state_text(s, dim)),
{
    lemma_literals();
    match s {
        None => {
            lemma_words_of_one("U"@, '\n');
        },
        Some(m) => {
            lemma_words_of_one("R"@, '\n');
            lemma_words_of_rows(m, dim, dim);
            lemma_words_of_sum("R\n"@, rows_text(m, dim, dim));
            let t = state_text(s, dim);
            if rows_text(m, dim, dim).len() == 0 {
                assert(t =~= "R\n"@);
            } else {
                assert(t.last() == rows_text(m, dim, dim).last());
            }
        },
    }
}

proof fn lemma_words_of_states(v: Seq<Option<Seq<Seq<i64>>>>, dim: nat, n: nat)
    requires
        n <= v.len(),
        forall|i: int| 0 <= i < v.len() ==> square_or_none(#[trigger] v[i], dim),
    ensures
        words(states_text(v, dim, n)) == all_words(v, dim, n),
        closed_off(states_text(v, dim, n)),
    decreases n,
{
    if n == 0 {
        assert(words(Seq::empty()) =~= Seq::empty());
    } else {
        lemma_words_of_states(v, dim, (n - 1) as nat);
        lemma_words_of_state(v[n - 1], dim);
        let a = states_text(v, dim, (n - 1) as nat);
        let b = state_text(v[n - 1], dim);
        lemma_words_of_sum(a, b);
        if b.len() == 0 {
            assert(a + b =~= a);
        } else {
            assert((a + b).last() == b.last());
        }
    }
}

proof fn lemma_bound_reads_back(v: i64)
    requires
        readable(v),
    ensures
        read_bound(bound_text(v)) == Some(reread(v)),
{
    lemma_literals();
    law_numbers_read_back(v as int);
    if v < INF && dec(v as int) == "INF"@ {
        assert(dec(v as int)[0] == 'I');
        assert(parsed_in(dec(v as int), true, i32::MIN as int, i32::MAX as int) is Some);
        assert(all_digits("INF"@));
        assert(is_digit("INF"@[0]));
    }
}

proof fn lemma_bounds_read_back(t: Seq<Seq<char>>, at: int, vals: Seq<i64>, n: nat)
    requires
        n <= vals.len(),
        0 <= at,
        at + vals.len() <= t.len(),
        forall|q: int| 0 <= q < vals.len() ==> t[at + q] == bound_text(#[trigger] vals[q]),
        forall|q: int| 0 <= q < vals.len() ==> readable(#[trigger] vals[q]),
    ensures
        read_bounds(t, at, n) == Ok::<Seq<i64>, CertError>(Seq::new(n, |q: int| reread(vals[q]))),
    decreases n,
{
    if n == 0 {
        assert(Seq::new(0, |q: int| reread(vals[q])) =~= Seq::empty());
    } else {
        lemma_bounds_read_back(t, at, vals, (n - 1) as nat);
        let last = vals[n - 1];
        assert(t[at + (n - 1)] == bound_text(last));
        lemma_bound_reads_back(last);
        assert(Seq::new((n - 1) as nat, |q: int| reread(vals[q])).push(reread(last)) =~= Seq::new(
            n,
            |q: int| reread(vals[q]),
        ));
    }
}

/// An entry of a matrix has its place among the rows one after another.
spec fn in_place(m: Seq<Seq<i64>>, f: Seq<i64>, dim: nat, i: int, j: int) -> bool {
    0 <= dim * i + j < f.len() && m[i][j] == f[dim * i + j]
}

proof fn lemma_flat(m: Seq<Seq<i64>>, dim: nat, n: nat)
    requires
        n <= m.len(),
        forall|i: int| 0 <= i < m.len() ==> (#[trigger] m[i]).len() == dim,
        forall|i: int, j: int| 0 <= i < m.len() && 0 <= j < dim ==> readable(#[trigger] m[i][j]),
    ensures
        flat(m, n).len() == dim * n,
        forall|i: int, j: int|
            0 <= i < n && 0 <= j < dim ==> #[trigger] in_place(m, flat(m, n), dim, i, j),
        forall|q: int| 0 <= q < flat(m, n).len() ==> readable(#[trigger] flat(m, n)[q]),
    decreases n,
{
    if n == 0 {
        assert(dim * 0 == 0) by (nonlinear_arith);
    } else {
        lemma_flat(m, dim, (n - 1) as nat);
        let a = flat(m, (n - 1) as nat);
        let row = m[n - 1];
        assert(dim * n == dim * (n - 1) + dim) by (nonlinear_arith);
        assert forall|i: int, j: int| 0 <= i < n && 0 <= j < dim implies #[trigger] in_place(
            m,
            flat(m, n),
            dim,
            i,
            j,
        ) by {
            if i < n - 1 {
                assert(in_place(m, a, dim, i, j));
                assert(flat(m, n)[dim * i + j] == a[dim * i + j]);
            } else {
                assert(flat(m, n)[a.len() + j] == row[j]);
            }
        }
        assert forall|q: int| 0 <= q < flat(m, n).len() implies readable(
            #[trigger] flat(m, n)[q],
        ) by {
            if q >= a.len() {
                assert(flat(m, n)[q] == m[n - 1][q - a.len()]);
            }
        }
    }
}

/// Every bound of a state can be read back.
pub open spec fn state_readable(s: Option<Seq<Seq<i64>>>, dim: nat) -> bool {
    s matches Some(m) ==> {
        &&& m.len() == dim
        &&& forall|i: int| 0 <= i < dim ==> (#[trigger] m[i]).len() == dim
        &&& forall|i: int, j: int| 0 <= i < dim && 0 <= j < dim ==> readable(#[trigger] m[i][j])
    }
}

proof fn lemma_as_matrix(m: Seq<Seq<i64>>, vals: Seq<i64>, dim: nat)
    requires
        m.len() == dim,
        forall|i: int| 0 <= i < dim ==> (#[trigger] m[i]).len() == dim,
        vals.len() == dim * dim,
        forall|i: int, j: int|
            0 <= i < dim && 0 <= j < dim ==> #[trigger] in_place(m, vals, dim, i, j),
    ensures
        as_matrix(Seq::new(dim * dim, |q: int| reread(vals[q])), dim) == reread_state(Some(m))->0,
{
    let got = Seq::new(dim * dim, |q: int| reread(vals[q]));
    let back = reread_state(Some(m))->0;
    let read = as_matrix(got, dim);
    assert forall|i: int| 0 <= i < dim implies read[i] == back[i] by {
        assert forall|j: int| 0 <= j < dim implies read[i][j] == back[i][j] by {
            assert(in_place(m, vals, dim, i, j));
        }
        assert(read[i] =~= back[i]);
    }
    assert(read =~= back);
}

proof fn lemma_state_reads_back(t: Seq<Seq<char>>, at: int, s: Option<Seq<Seq<i64>>>, dim: nat)
    requires
        state_readable(s, dim),
        0 <= at,
        at + state_words(s, dim).len() <= t.len(),
        forall|q: int|
            0 <= q < state_words(s, dim).len() ==> t[at + q] == #[trigger] state_words(s, dim)[q],
    ensures
        read_state(t, at, dim) == Ok::<(Option<Seq<Seq<i64>>>, int), CertError>(
            (reread_state(s), at + state_words(s, dim).len()),
        ),
{
    lemma_literals();
    let w = state_words(s, dim);
    assert(t[at + 0] == w[0]);
    if let Some(m) = s {
        lemma_flat(m, dim, dim);
        let vals = flat(m, dim);
        assert forall|q: int| 0 <= q < vals.len() implies t[at + 1 + q] == bound_text(
            #[trigger] vals[q],
        ) by {
            assert(t[at + (q + 1)] == w[q + 1]);
            assert(w[q + 1] == bound_words(vals)[q]);
        }
        lemma_bounds_read_back(t, at + 1, vals, dim * dim);
        lemma_as_matrix(m, vals, dim);
    }
}

proof fn lemma_states_read_back(
    t: Seq<Seq<char>>,
    v: Seq<Option<Seq<Seq<i64>>>>,
    dim: nat,
    n: nat,
)
    requires
        n <= v.len(),
        forall|i: int| 0 <= i < v.len() ==> state_readable(#[trigger] v[i], dim),
        2 + all_words(v, dim, n).len() <= t.len(),
        forall|q: int|
            0 <= q < all_words(v, dim, n).len() ==> t[2 + q] == #[trigger] all_words(v, dim, n)[q],
    ensures
        read_states(t, 2, dim, n) == Ok::<(Seq<Option<Seq<Seq<i64>>>>, int), CertError>(
            (Seq::new(n, |i: int| reread_state(v[i])), 2 + all_words(v, dim, n).len() as int),
        ),
    decreases n,
{
    if n == 0 {
        assert(Seq::new(0, |i: int| reread_state(v[i])) =~= Seq::empty());
    } else {
        let a = all_words(v, dim, (n - 1) as nat);
        let w = state_words(v[n - 1], dim);
        let all = all_words(v, dim, n);
        assert forall|q: int| 0 <= q < a.len() implies t[2 + q] == #[trigger] a[q] by {
            assert(all[q] == a[q]);
        }
        lemma_states_read_back(t, v, dim, (n - 1) as nat);
        let at = 2 + a.len() as int;
        assert forall|q: int| 0 <= q < w.len() implies t[at + q] == #[trigger] w[q] by {
            assert(all[a.len() + q] == w[q]);
            assert(t[2 + (a.len() + q)] == all[a.len() + q]);
        }
        lemma_state_reads_back(t, at, v[n - 1], dim);
        assert(Seq::new((n - 1) as nat, |i: int| reread_state(v[i])).push(reread_state(v[n - 1]))
            =~= Seq::new(n, |i: int| reread_state(v[i])));
    }
}

/// A certificate that was written is read back, if its bounds are 32-bit
/// numbers: the same states, with one value for all bounds that say nothing.
pub proof fn law_certificates_read_back(c: Claim)
    requires
        c.states.len() == c.pcs,
        forall|i: int|
            0 <= i < c.states.len() ==> state_readable(#[trigger] c.states[i], c.dim as nat),
    ensures
        read_words(words(certificate_text(c.pcs as nat, c.dim as nat, c.states))) == Ok::<
            Claim,
            CertError,
        >(
            (Claim {
                states: Seq::new(c.states.len(), |i: int| reread_state(c.states[i])),
                ..c
            }),
        ),
{
    lemma_literals();
    let dim = c.dim as nat;
    let n = c.pcs as nat;
    let v = c.states;
    let a = dec(n as int);
    let b = dec(dim as int);
    let body = states_text(v, dim, n);
    law_numbers_read_back(n as int);
    law_numbers_read_back(dim as int);
    assert forall|i: int| 0 <= i < v.len() implies square_or_none(#[trigger] v[i], dim) by {
        assert(state_readable(v[i], dim));
    }
    lemma_words_of_states(v, dim, n);
    lemma_words_of_word(Seq::empty(), a, ' ', b + seq!['\n'] + body);
    lemma_words_of_word(Seq::empty(), b, '\n', body);
    assert(Seq::empty() + a =~= a);
    assert(Seq::empty() + b =~= b);
    let text = certificate_text(n, dim, v);
    assert(text =~= a + seq![' '] + (b + seq!['\n'] + body));
    let t = words(text);
    assert(t == seq![a] + (seq![b] + all_words(v, dim, n)));
    assert(t[0] == a);
    assert(t[1] == b);
    assert forall|q: int| 0 <= q < all_words(v, dim, n).len() implies t[2 + q]
        == #[trigger] all_words(v, dim, n)[q] by {}
    lemma_states_read_back(t, v, dim, n);
}

} // verus!

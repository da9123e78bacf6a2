//! Semantic analysis: constraint canonicalization into a closed taxonomy,
//! precedence ordering over block kinds, and a coarse complexity estimate.

use vstd::prelude::*;
use crate::ast::BlockKind;
use crate::text::{
    chars_of, chars_to_string, contains_str, dec_chars, eq_str, is_alnum, is_digit, lower_char,
    lower_chars, parse_u32_chars, push_deep, spec_contains, spec_dec, spec_is_alnum,
    spec_is_digit, spec_is_upper, spec_lower, spec_lower_char, spec_parse_u32,
};

verus! {

// --- Canonicalization ---

/// One pass of the canonicalization scan: alphanumeric characters are
/// case-folded and kept; every maximal run of other characters becomes one
/// `'_'`, except a leading run (`last_sep` starts true), which vanishes.
pub open spec fn canon_rec(s: Seq<char>, last_sep: bool) -> Seq<char>
    decreases s.len(),
{
    if s.len() == 0 {
        Seq::empty()
    } else {
        let c = s[0];
        if spec_is_alnum(c) {
            seq![spec_lower_char(c)] + canon_rec(s.drop_first(), false)
        } else if !last_sep {
            seq!['_'] + canon_rec(s.drop_first(), true)
        } else {
            canon_rec(s.drop_first(), true)
        }
    }
}

pub open spec fn strip_last_underscore(s: Seq<char>) -> Seq<char> {
    if s.len() > 0 && s.last() == '_' {
        s.drop_last()
    } else {
        s
    }
}

/// The canonical form of a constraint string: lowercase alphanumeric words
/// separated by single underscores, with no leading or trailing underscore.
pub open spec fn spec_canon(s: Seq<char>) -> Seq<char> {
    strip_last_underscore(canon_rec(s, true))
}

/// A character that may appear in a canonical constraint string.
pub open spec fn is_canon_char(c: char) -> bool {
    (spec_is_alnum(c) && !spec_is_upper(c)) || c == '_'
}

pub open spec fn no_double_underscore(s: Seq<char>) -> bool {
    forall|i: int| 0 <= i < s.len() - 1 ==> !(#[trigger] s[i] == '_' && s[i + 1] == '_')
}

/// The shape of every canonicalization result: only lowercase alphanumerics
/// and isolated underscores, with alphanumerics at both ends.
pub open spec fn is_canonical(s: Seq<char>) -> bool {
    &&& forall|i: int| 0 <= i < s.len() ==> is_canon_char(#[trigger] s[i])
    &&& no_double_underscore(s)
    &&& s.len() > 0 ==> s[0] != '_' && s.last() != '_'
}

proof fn lemma_canon_rec_shape(s: Seq<char>, b: bool)
    ensures
        forall|i: int|
            0 <= i < canon_rec(s, b).len() ==> is_canon_char(#[trigger] canon_rec(s, b)[i]),
        no_double_underscore(canon_rec(s, b)),
        b && canon_rec(s, b).len() > 0 ==> canon_rec(s, b)[0] != '_',
    decreases s.len(),
{
    if s.len() == 0 {
    } else {
        let c = s[0];
        let rest = s.drop_first();
        if spec_is_alnum(c) {
            lemma_canon_rec_shape(rest, false);
            let t = canon_rec(rest, false);
            let r = canon_rec(s, b);
            assert(r == seq![spec_lower_char(c)] + t);
            assert(is_canon_char(spec_lower_char(c)));
            assert forall|i: int| 0 <= i < r.len() implies is_canon_char(#[trigger] r[i]) by {
                if i > 0 {
                    assert(r[i] == t[i - 1]);
                }
            }
            assert forall|i: int| 0 <= i < r.len() - 1 implies !(#[trigger] r[i] == '_' && r[i + 1]
                == '_') by {
                if i > 0 {
                    assert(r[i] == t[i - 1] && r[i + 1] == t[i]);
                }
            }
        } else if !b {
            lemma_canon_rec_shape(rest, true);
            let t = canon_rec(rest, true);
            let r = canon_rec(s, b);
            assert(r == seq!['_'] + t);
            assert forall|i: int| 0 <= i < r.len() implies is_canon_char(#[trigger] r[i]) by {
                if i > 0 {
                    assert(r[i] == t[i - 1]);
                }
            }
            assert forall|i: int| 0 <= i < r.len() - 1 implies !(#[trigger] r[i] == '_' && r[i + 1]
                == '_') by {
                if i == 0 {
                    if t.len() > 0 {
                        assert(r[1] == t[0]);
                    }
                } else {
                    assert(r[i] == t[i - 1] && r[i + 1] == t[i]);
                }
            }
        } else {
            lemma_canon_rec_shape(rest, true);
        }
    }
}

/// Every canonicalization result has the canonical shape.
proof fn lemma_canon_shape(s: Seq<char>)
    ensures
        is_canonical(spec_canon(s)),
{
    lemma_canon_rec_shape(s, true);
    let t = canon_rec(s, true);
    let r = spec_canon(s);
    if t.len() > 0 && t.last() == '_' {
        assert(r == t.drop_last());
        assert(forall|i: int| 0 <= i < r.len() ==> r[i] == t[i]);
        if r.len() > 0 && r.last() == '_' {
            assert(t[r.len() - 1] == '_' && t[r.len() as int] == '_');
            assert(false);
        }
    }
}

proof fn lemma_canon_rec_fixed(s: Seq<char>, b: bool)
    requires
        forall|i: int| 0 <= i < s.len() ==> is_canon_char(#[trigger] s[i]),
        no_double_underscore(s),
        s.len() > 0 ==> s.last() != '_',
        b && s.len() > 0 ==> s[0] != '_',
    ensures
        canon_rec(s, b) == s,
    decreases s.len(),
{
    if s.len() == 0 {
        assert(canon_rec(s, b) =~= s);
    } else {
        let c = s[0];
        let rest = s.drop_first();
        assert(is_canon_char(c));
        if c == '_' {
            assert(spec_is_alnum(c) == false);
            assert(!b);
            assert(s.last() != '_');
            assert(rest.len() > 0);
            assert(rest[0] == s[1]);
            assert(!(s[0] == '_' && s[1] == '_'));
            assert(forall|i: int| 0 <= i < rest.len() ==> is_canon_char(#[trigger] rest[i]));
            assert forall|i: int| 0 <= i < rest.len() - 1 implies !(#[trigger] rest[i] == '_' && rest[i + 1]
                == '_') by {
                assert(rest[i] == s[i + 1] && rest[i + 1] == s[i + 2]);
            }
            assert(rest.last() == s.last());
            lemma_canon_rec_fixed(rest, true);
            assert(canon_rec(s, b) =~= s);
        } else {
            assert(spec_is_alnum(c) && !spec_is_upper(c));
            assert(spec_lower_char(c) == c);
            assert(forall|i: int| 0 <= i < rest.len() ==> is_canon_char(#[trigger] rest[i]));
            assert forall|i: int| 0 <= i < rest.len() - 1 implies !(#[trigger] rest[i] == '_' && rest[i + 1]
                == '_') by {
                assert(rest[i] == s[i + 1] && rest[i + 1] == s[i + 2]);
            }
            if rest.len() > 0 {
                assert(rest.last() == s.last());
            }
            lemma_canon_rec_fixed(rest, false);
            assert(canon_rec(s, b) =~= s);
        }
    }
}

/// A string already in canonical shape canonicalizes to itself.
pub proof fn lemma_canonical_fixed(s: Seq<char>)
    requires
        is_canonical(s),
    ensures
        spec_canon(s) == s,
{
    lemma_canon_rec_fixed(s, true);
}

/// Canonicalization is idempotent: canonicalizing a second time changes
/// nothing, for every input string.
pub proof fn lemma_canonicalize_idempotent(s: Seq<char>)
    ensures
        spec_canon(spec_canon(s)) == spec_canon(s),
{
    lemma_canon_shape(s);
    lemma_canonical_fixed(spec_canon(s));
}

/// Normalize a constraint string to canonical form: case-fold, replace every
/// maximal run of non-alphanumeric characters by one underscore, and drop
/// leading and trailing separators.
pub fn normalize_constraint(s: &str) -> (r: String)
    ensures
        r@ == spec_canon(s@),
{
    let v = chars_of(s);
    let n = v.len();
    let mut acc: Vec<char> = Vec::new();
    let mut last_sep = true;
    let mut i: usize = 0;
    proof {
        assert(s@.skip(0) =~= s@);
        assert(acc@ + canon_rec(s@, true) =~= canon_rec(s@, true));
    }
    while i < n
        invariant
            i <= n,
            n == v@.len(),
            v@ == s@,
            canon_rec(s@, true) == acc@ + canon_rec(s@.skip(i as int), last_sep),
        decreases n - i,
    {
        let c = v[i];
        let ghost suf = s@.skip(i as int);
        proof {
            assert(suf[0] == s@[i as int]);
            assert(suf.drop_first() =~= s@.skip(i + 1));
        }
        if is_alnum(c) {
            acc.push(lower_char(c));
            last_sep = false;
        } else if !last_sep {
            acc.push('_');
            last_sep = true;
        }
        i = i + 1;
        proof {
            assert(canon_rec(s@, true) =~= acc@ + canon_rec(s@.skip(i as int), last_sep));
        }
    }
    proof {
        assert(s@.skip(n as int) =~= Seq::<char>::empty());
        assert(canon_rec(s@, true) =~= acc@);
    }
    if acc.len() > 0 && acc[acc.len() - 1] == '_' {
        acc.pop();
        proof {
            assert(acc@ =~= spec_canon(s@));
        }
    }
    chars_to_string(&acc)
}

/// Canonicalize a constraint string; the same normalization as
/// [`normalize_constraint`].
pub fn canonicalize(s: &str) -> (r: String)
    ensures
        r@ == spec_canon(s@),
{
    normalize_constraint(s)
}

// --- Constraints ---

/// Mathematical model of a [`Constraint`].
pub enum ConstraintV {
    RealDbsOnly,
    NoMocks,
    LtLoc(u32),
    SafeRefactor,
    ApiCompat,
    NoStubs,
    RequireTests,
    Other(Seq<char>),
}

/// Known constraint types.
#[derive(Debug, Clone, PartialEq, Eq, Hash)]
pub enum Constraint {
    /// Only use real databases, no mocks
    RealDbsOnly,
    /// No mock objects allowed
    NoMocks,
    /// Lines of code limit
    LtLoc(u32),
    /// Safe refactoring only (no breaking changes)
    SafeRefactor,
    /// API compatibility required
    ApiCompat,
    /// No stubs allowed
    NoStubs,
    /// Require tests
    RequireTests,
    /// Custom constraint
    Other(String),
}

impl View for Constraint {
    type V = ConstraintV;

    open spec fn view(&self) -> ConstraintV {
        match self {
            Constraint::RealDbsOnly => ConstraintV::RealDbsOnly,
            Constraint::NoMocks => ConstraintV::NoMocks,
            Constraint::LtLoc(n) => ConstraintV::LtLoc(*n),
            Constraint::SafeRefactor => ConstraintV::SafeRefactor,
            Constraint::ApiCompat => ConstraintV::ApiCompat,
            Constraint::NoStubs => ConstraintV::NoStubs,
            Constraint::RequireTests => ConstraintV::RequireTests,
            Constraint::Other(s) => ConstraintV::Other(s@),
        }
    }
}

/// The decimal digits of `s`, in order.
pub open spec fn digits_of(s: Seq<char>) -> Seq<char> {
    s.filter(|c: char| spec_is_digit(c))
}

/// How a constraint string is classified: canonical identifiers first, then
/// a lines-of-code limit when the canonical form mentions `loc` and carries
/// digits, then fuzzy keyword pairs over the case-folded original text, and
/// otherwise the canonical string itself.
pub open spec fn spec_constraint_of(s: Seq<char>) -> ConstraintV {
    let canonical = spec_canon(s);
    if canonical == "no_mocks"@ {
        ConstraintV::NoMocks
    } else if canonical == "real_dbs"@ || canonical == "real_dbs_only"@ || canonical
        == "real_databases"@ || canonical == "real_databases_only"@ {
        ConstraintV::RealDbsOnly
    } else if canonical == "no_stubs"@ {
        ConstraintV::NoStubs
    } else if canonical == "safe_refactor"@ || canonical == "safe_refactoring"@ {
        ConstraintV::SafeRefactor
    } else if canonical == "api_compat"@ || canonical == "api_compatibility"@ || canonical
        == "api_compatibility_required"@ {
        ConstraintV::ApiCompat
    } else if canonical == "require_tests"@ || canonical == "tests_required"@ {
        ConstraintV::RequireTests
    } else if spec_contains(canonical, "loc"@) && spec_parse_u32(digits_of(canonical)) is Some {
        ConstraintV::LtLoc(spec_parse_u32(digits_of(canonical)).unwrap())
    } else {
        let lower = spec_lower(s);
        if spec_contains(lower, "real"@) && (spec_contains(lower, "db"@) || spec_contains(
            lower,
            "database"@,
        )) {
            ConstraintV::RealDbsOnly
        } else if spec_contains(lower, "no"@) && spec_contains(lower, "mock"@) {
            ConstraintV::NoMocks
        } else if spec_contains(lower, "no"@) && spec_contains(lower, "stub"@) {
            ConstraintV::NoStubs
        } else if spec_contains(lower, "safe"@) && spec_contains(lower, "refactor"@) {
            ConstraintV::SafeRefactor
        } else if spec_contains(lower, "api"@) && spec_contains(lower, "compat"@) {
            ConstraintV::ApiCompat
        } else if spec_contains(lower, "require"@) && spec_contains(lower, "test"@) {
            ConstraintV::RequireTests
        } else {
            ConstraintV::Other(canonical)
        }
    }
}

impl Constraint {
    /// Classify a raw constraint line.
    pub fn from_str(s: &str) -> (r: Constraint)
        ensures
            r@ == spec_constraint_of(s@),
    {
        let canonical = normalize_constraint(s);
        let cv = chars_of(canonical.as_str());

        if eq_str(&cv, "no_mocks") {
            return Constraint::NoMocks;
        }
        if eq_str(&cv, "real_dbs") || eq_str(&cv, "real_dbs_only") || eq_str(&cv, "real_databases")
            || eq_str(&cv, "real_databases_only") {
            return Constraint::RealDbsOnly;
        }
        if eq_str(&cv, "no_stubs") {
            return Constraint::NoStubs;
        }
        if eq_str(&cv, "safe_refactor") || eq_str(&cv, "safe_refactoring") {
            return Constraint::SafeRefactor;
        }
        if eq_str(&cv, "api_compat") || eq_str(&cv, "api_compatibility") || eq_str(
            &cv,
            "api_compatibility_required",
        ) {
            return Constraint::ApiCompat;
        }
        if eq_str(&cv, "require_tests") || eq_str(&cv, "tests_required") {
            return Constraint::RequireTests;
        }

        if contains_str(&cv, "loc") {
            let mut digits: Vec<char> = Vec::new();
            let mut i: usize = 0;
            proof {
                reveal(Seq::filter);
                assert(cv@.take(0) =~= Seq::<char>::empty());
                assert(digits@ =~= digits_of(cv@.take(0)));
            }
            while i < cv.len()
                invariant
                    i <= cv@.len(),
                    digits@ == digits_of(cv@.take(i as int)),
                decreases cv@.len() - i,
            {
                if is_digit(cv[i]) {
                    digits.push(cv[i]);
                }
                i = i + 1;
                proof {
                    reveal(Seq::filter);
                    assert(cv@.take(i as int).drop_last() =~= cv@.take(i - 1));
                    assert(cv@.take(i as int).last() == cv@[i - 1]);
                }
            }
            proof {
                assert(cv@.take(cv@.len() as int) =~= cv@);
            }
            if let Some(n) = parse_u32_chars(&digits) {
                return Constraint::LtLoc(n);
            }
        }

        let lower = lower_chars(&chars_of(s));
        if contains_str(&lower, "real") && (contains_str(&lower, "db") || contains_str(
            &lower,
            "database",
        )) {
            return Constraint::RealDbsOnly;
        }
        if contains_str(&lower, "no") && contains_str(&lower, "mock") {
            return Constraint::NoMocks;
        }
        if contains_str(&lower, "no") && contains_str(&lower, "stub") {
            return Constraint::NoStubs;
        }
        if contains_str(&lower, "safe") && contains_str(&lower, "refactor") {
            return Constraint::SafeRefactor;
        }
        if contains_str(&lower, "api") && contains_str(&lower, "compat") {
            return Constraint::ApiCompat;
        }
        if contains_str(&lower, "require") && contains_str(&lower, "test") {
            return Constraint::RequireTests;
        }

        Constraint::Other(canonical)
    }

    /// The canonical string of this constraint.
    pub open spec fn spec_as_str(self) -> Seq<char> {
        match self@ {
            ConstraintV::RealDbsOnly => "real_dbs_only"@,
            ConstraintV::NoMocks => "no_mocks"@,
            ConstraintV::LtLoc(n) => "lt_"@ + spec_dec(n as int) + "_loc"@,
            ConstraintV::SafeRefactor => "safe_refactor"@,
            ConstraintV::ApiCompat => "api_compat"@,
            ConstraintV::NoStubs => "no_stubs"@,
            ConstraintV::RequireTests => "require_tests"@,
            ConstraintV::Other(s) => s,
        }
    }

    /// Get the canonical string representation.
    pub fn as_str(&self) -> (r: String)
        ensures
            r@ == self.spec_as_str(),
    {
        match self {
            Constraint::RealDbsOnly => String::from_str("real_dbs_only"),
            Constraint::NoMocks => String::from_str("no_mocks"),
            Constraint::LtLoc(n) => {
                let mut s = String::from_str("lt_");
                let digits = dec_chars(*n as u64);
                let ds = chars_to_string(&digits);
                s.append(ds.as_str());
                s.append("_loc");
                s
            },
            Constraint::SafeRefactor => String::from_str("safe_refactor"),
            Constraint::ApiCompat => String::from_str("api_compat"),
            Constraint::NoStubs => String::from_str("no_stubs"),
            Constraint::RequireTests => String::from_str("require_tests"),
            Constraint::Other(s) => s.clone(),
        }
    }
}

// --- Semantics of a validated document ---

/// Mathematical model of a [`Semantics`].
pub struct SemanticsV {
    pub constraints: Seq<ConstraintV>,
    pub requires_plan: bool,
    pub complexity: u8,
}

/// Semantic analysis of a validated document.
#[derive(Debug, Clone)]
pub struct Semantics {
    /// Parsed constraints
    pub constraints: Vec<Constraint>,
    /// Whether execution mode requires PLAN
    pub requires_plan: bool,
    /// Estimated complexity (1-5)
    pub complexity: u8,
}

impl View for Semantics {
    type V = SemanticsV;

    open spec fn view(&self) -> SemanticsV {
        SemanticsV {
            constraints: self.constraints.deep_view(),
            requires_plan: self.requires_plan,
            complexity: self.complexity,
        }
    }
}

impl DeepView for Constraint {
    type V = ConstraintV;

    open spec fn deep_view(&self) -> ConstraintV {
        self@
    }
}

/// The complexity bucket for a plan: 0-2 steps map to 1, 3-5 to 2, 6-10 to
/// 3, 11-20 to 4, more to 5; no plan maps to 1.
pub open spec fn spec_complexity(plan: Option<Seq<Seq<char>>>) -> u8 {
    match plan {
        Some(steps) => if steps.len() <= 2 {
            1
        } else if steps.len() <= 5 {
            2
        } else if steps.len() <= 10 {
            3
        } else if steps.len() <= 20 {
            4
        } else {
            5
        },
        None => 1,
    }
}

/// Whether a plan is heuristically required: more than one goal line.
pub open spec fn spec_requires_plan(goals: Option<Seq<Seq<char>>>) -> bool {
    match goals {
        Some(g) => g.len() > 1,
        None => false,
    }
}

/// The semantics derived from a validated document.
pub open spec fn spec_semantics(v: crate::validate::ValidatedV) -> SemanticsV {
    SemanticsV {
        constraints: match v.constraints {
            Some(rules) => rules.map_values(|r: Seq<char>| spec_constraint_of(r)),
            None => Seq::empty(),
        },
        requires_plan: spec_requires_plan(v.goals),
        complexity: spec_complexity(v.plan),
    }
}

/// The first lines-of-code limit among the constraints, if any.
pub open spec fn spec_loc_limit(cs: Seq<ConstraintV>) -> Option<u32>
    decreases cs.len(),
{
    if cs.len() == 0 {
        None
    } else if cs[0] is LtLoc {
        Some(cs[0]->LtLoc_0)
    } else {
        spec_loc_limit(cs.drop_first())
    }
}

/// The canonical strings of the custom constraints, in order.
pub open spec fn spec_custom_constraints(cs: Seq<ConstraintV>) -> Seq<Seq<char>> {
    cs.filter(|c: ConstraintV| c is Other).map_values(|c: ConstraintV| c->Other_0)
}

impl Semantics {
    /// Build semantics from a validated document.
    pub fn from_validated(doc: &crate::validate::ValidatedDocument) -> (r: Semantics)
        ensures
            r@ == spec_semantics(doc@),
    {
        let mut constraints: Vec<Constraint> = Vec::new();
        match &doc.constraints {
            Some(cv) => {
                let n = cv.rules.len();
                let mut i: usize = 0;
                while i < n
                    invariant
                        i <= n,
                        n == cv.rules@.len(),
                        cv.rules.deep_view().len() == n,
                        forall|k: int|
                            0 <= k < n ==> cv.rules.deep_view()[k] == #[trigger] cv.rules@[k]@,
                        constraints.deep_view().len() == i,
                        forall|k: int|
                            0 <= k < i ==> constraints.deep_view()[k] == spec_constraint_of(
                                cv.rules.deep_view()[k],
                            ),
                    decreases n - i,
                {
                    push_deep(&mut constraints, Constraint::from_str(cv.rules[i].as_str()));
                    i = i + 1;
                }
                proof {
                    assert(constraints.deep_view() =~= cv.rules.deep_view().map_values(
                        |r: Seq<char>| spec_constraint_of(r),
                    ));
                }
            },
            None => {
                proof {
                    assert(constraints.deep_view() =~= Seq::<ConstraintV>::empty());
                }
            },
        }

        let complexity: u8 = match &doc.plan {
            Some(plan) => {
                let n = plan.steps.len();
                if n <= 2 {
                    1
                } else if n <= 5 {
                    2
                } else if n <= 10 {
                    3
                } else if n <= 20 {
                    4
                } else {
                    5
                }
            },
            None => 1,
        };

        let requires_plan = match &doc.goals {
            Some(g) => g.goals.len() > 1,
            None => false,
        };

        Semantics { constraints, requires_plan, complexity }
    }

    /// Check if mocks are forbidden.
    pub fn forbids_mocks(&self) -> (r: bool)
        ensures
            r == exists|i: int|
                0 <= i < self@.constraints.len() && #[trigger] self@.constraints[i] is NoMocks,
    {
        let n = self.constraints.len();
        let mut i: usize = 0;
        while i < n
            invariant
                i <= n,
                n == self.constraints@.len(),
                self@.constraints.len() == n,
                forall|k: int|
                    0 <= k < n ==> self@.constraints[k] == #[trigger] self.constraints@[k]@,
                forall|k: int| 0 <= k < i ==> !(#[trigger] self@.constraints[k] is NoMocks),
            decreases n - i,
        {
            if matches!(self.constraints[i], Constraint::NoMocks) {
                proof {
                    assert(0 <= i < self@.constraints.len() && self@.constraints[i as int] is NoMocks);
                }
                return true;
            }
            i = i + 1;
        }
        false
    }

    /// Check if stubs are forbidden.
    pub fn forbids_stubs(&self) -> (r: bool)
        ensures
            r == exists|i: int|
                0 <= i < self@.constraints.len() && #[trigger] self@.constraints[i] is NoStubs,
    {
        let n = self.constraints.len();
        let mut i: usize = 0;
        while i < n
            invariant
                i <= n,
                n == self.constraints@.len(),
                self@.constraints.len() == n,
                forall|k: int|
                    0 <= k < n ==> self@.constraints[k] == #[trigger] self.constraints@[k]@,
                forall|k: int| 0 <= k < i ==> !(#[trigger] self@.constraints[k] is NoStubs),
            decreases n - i,
        {
            if matches!(self.constraints[i], Constraint::NoStubs) {
                proof {
                    assert(0 <= i < self@.constraints.len() && self@.constraints[i as int] is NoStubs);
                }
                return true;
            }
            i = i + 1;
        }
        false
    }

    /// Check if real databases are required.
    pub fn requires_real_dbs(&self) -> (r: bool)
        ensures
            r == exists|i: int|
                0 <= i < self@.constraints.len() && #[trigger] self@.constraints[i] is RealDbsOnly,
    {
        let n = self.constraints.len();
        let mut i: usize = 0;
        while i < n
            invariant
                i <= n,
                n == self.constraints@.len(),
                self@.constraints.len() == n,
                forall|k: int|
                    0 <= k < n ==> self@.constraints[k] == #[trigger] self.constraints@[k]@,
                forall|k: int| 0 <= k < i ==> !(#[trigger] self@.constraints[k] is RealDbsOnly),
            decreases n - i,
        {
            if matches!(self.constraints[i], Constraint::RealDbsOnly) {
                proof {
                    assert(0 <= i < self@.constraints.len() && self@.constraints[i as int] is RealDbsOnly);
                }
                return true;
            }
            i = i + 1;
        }
        false
    }

    /// Check if tests are required.
    pub fn requires_tests(&self) -> (r: bool)
        ensures
            r == exists|i: int|
                0 <= i < self@.constraints.len() && #[trigger] self@.constraints[i] is RequireTests,
    {
        let n = self.constraints.len();
        let mut i: usize = 0;
        while i < n
            invariant
                i <= n,
                n == self.constraints@.len(),
                self@.constraints.len() == n,
                forall|k: int|
                    0 <= k < n ==> self@.constraints[k] == #[trigger] self.constraints@[k]@,
                forall|k: int| 0 <= k < i ==> !(#[trigger] self@.constraints[k] is RequireTests),
            decreases n - i,
        {
            if matches!(self.constraints[i], Constraint::RequireTests) {
                proof {
                    assert(0 <= i < self@.constraints.len() && self@.constraints[i as int] is RequireTests);
                }
                return true;
            }
            i = i + 1;
        }
        false
    }

    /// Get the lines-of-code limit if one is specified.
    pub fn loc_limit(&self) -> (r: Option<u32>)
        ensures
            r == spec_loc_limit(self@.constraints),
    {
        let ghost full = self@.constraints;
        let n = self.constraints.len();
        let mut i: usize = 0;
        proof {
            assert(full.skip(0) =~= full);
        }
        while i < n
            invariant
                i <= n,
                n == self.constraints@.len(),
                full == self@.constraints,
                full.len() == n,
                forall|k: int|
                    0 <= k < n ==> full[k] == #[trigger] self.constraints@[k]@,
                spec_loc_limit(full) == spec_loc_limit(full.skip(i as int)),
            decreases n - i,
        {
            proof {
                assert(full.skip(i as int)[0] == full[i as int]);
                assert(full.skip(i as int).drop_first() =~= full.skip(i + 1));
            }
            if let Constraint::LtLoc(m) = &self.constraints[i] {
                return Some(*m);
            }
            i = i + 1;
        }
        proof {
            assert(full.skip(n as int) =~= Seq::<ConstraintV>::empty());
        }
        None
    }

    /// Check if refactoring must be safe.
    pub fn requires_safe_refactor(&self) -> (r: bool)
        ensures
            r == exists|i: int|
                0 <= i < self@.constraints.len() && #[trigger] self@.constraints[i] is SafeRefactor,
    {
        let n = self.constraints.len();
        let mut i: usize = 0;
        while i < n
            invariant
                i <= n,
                n == self.constraints@.len(),
                self@.constraints.len() == n,
                forall|k: int|
                    0 <= k < n ==> self@.constraints[k] == #[trigger] self.constraints@[k]@,
                forall|k: int| 0 <= k < i ==> !(#[trigger] self@.constraints[k] is SafeRefactor),
            decreases n - i,
        {
            if matches!(self.constraints[i], Constraint::SafeRefactor) {
                proof {
                    assert(0 <= i < self@.constraints.len() && self@.constraints[i as int] is SafeRefactor);
                }
                return true;
            }
            i = i + 1;
        }
        false
    }

    /// Check if API compatibility is required.
    pub fn requires_api_compat(&self) -> (r: bool)
        ensures
            r == exists|i: int|
                0 <= i < self@.constraints.len() && #[trigger] self@.constraints[i] is ApiCompat,
    {
        let n = self.constraints.len();
        let mut i: usize = 0;
        while i < n
            invariant
                i <= n,
                n == self.constraints@.len(),
                self@.constraints.len() == n,
                forall|k: int|
                    0 <= k < n ==> self@.constraints[k] == #[trigger] self.constraints@[k]@,
                forall|k: int| 0 <= k < i ==> !(#[trigger] self@.constraints[k] is ApiCompat),
            decreases n - i,
        {
            if matches!(self.constraints[i], Constraint::ApiCompat) {
                proof {
                    assert(0 <= i < self@.constraints.len() && self@.constraints[i as int] is ApiCompat);
                }
                return true;
            }
            i = i + 1;
        }
        false
    }

    /// Get the canonical strings of all custom constraints.
    pub fn custom_constraints(&self) -> (r: Vec<String>)
        ensures
            r.deep_view() == spec_custom_constraints(self@.constraints),
    {
        let ghost full = self@.constraints;
        let n = self.constraints.len();
        let mut r: Vec<String> = Vec::new();
        let mut i: usize = 0;
        proof {
            reveal(Seq::filter);
            assert(full.take(0) =~= Seq::<ConstraintV>::empty());
            assert(r.deep_view() =~= spec_custom_constraints(full.take(0)));
        }
        while i < n
            invariant
                i <= n,
                n == self.constraints@.len(),
                full == self@.constraints,
                full.len() == n,
                forall|k: int|
                    0 <= k < n ==> full[k] == #[trigger] self.constraints@[k]@,
                r.deep_view() == spec_custom_constraints(full.take(i as int)),
            decreases n - i,
        {
            let ghost pre = r.deep_view();
            if let Constraint::Other(s) = &self.constraints[i] {
                push_deep(&mut r, s.clone());
            }
            i = i + 1;
            proof {
                reveal(Seq::filter);
                let cur = full.take(i as int);
                assert(cur.drop_last() =~= full.take(i - 1));
                assert(cur.last() == full[i - 1]);
                let fpre = full.take(i - 1).filter(|c: ConstraintV| c is Other);
                let fcur = cur.filter(|c: ConstraintV| c is Other);
                if full[i - 1] is Other {
                    assert(fcur == fpre.push(full[i - 1]));
                    assert(r.deep_view() =~= fcur.map_values(|c: ConstraintV| c->Other_0));
                } else {
                    assert(fcur == fpre);
                    assert(r.deep_view() =~= fcur.map_values(|c: ConstraintV| c->Other_0));
                }
            }
        }
        proof {
            assert(full.take(n as int) =~= full);
        }
        r
    }
}

// --- Precedence ---

/// Precedence level for conflict resolution, lowest to highest.
#[derive(Debug, Clone, Copy, PartialEq, Eq, PartialOrd, Ord, Structural)]
pub enum Precedence {
    /// Lowest priority
    Context,
    /// Plan steps
    Plan,
    /// Goals override plan
    Goals,
    /// Task overrides goals
    Task,
    /// Constraints override everything
    Constraints,
}

/// The precedence assigned to each block kind: CONSTRAINTS > TASK > GOALS >
/// PLAN, and every other kind at CONTEXT level.
pub open spec fn spec_precedence_for(kind: BlockKind) -> Precedence {
    match kind {
        BlockKind::Constraints => Precedence::Constraints,
        BlockKind::Task => Precedence::Task,
        BlockKind::Goals => Precedence::Goals,
        BlockKind::Plan => Precedence::Plan,
        _ => Precedence::Context,
    }
}

impl Precedence {
    /// The numeric level of this precedence, 1 (lowest) to 5 (highest).
    pub open spec fn spec_level(self) -> u8 {
        match self {
            Precedence::Context => 1,
            Precedence::Plan => 2,
            Precedence::Goals => 3,
            Precedence::Task => 4,
            Precedence::Constraints => 5,
        }
    }

    /// The numeric level of this precedence, 1 (lowest) to 5 (highest).
    pub fn level(&self) -> (r: u8)
        ensures
            r == self.spec_level(),
    {
        match self {
            Precedence::Context => 1,
            Precedence::Plan => 2,
            Precedence::Goals => 3,
            Precedence::Task => 4,
            Precedence::Constraints => 5,
        }
    }

    /// Get the precedence for a block kind.
    pub fn for_block(kind: BlockKind) -> (r: Precedence)
        ensures
            r == spec_precedence_for(kind),
    {
        match kind {
            BlockKind::Constraints => Precedence::Constraints,
            BlockKind::Task => Precedence::Task,
            BlockKind::Goals => Precedence::Goals,
            BlockKind::Plan => Precedence::Plan,
            _ => Precedence::Context,
        }
    }
}

} // verus!

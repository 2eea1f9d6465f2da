//! The parser registry.
//!
//! An explicit, constructor-injected table of parser registrations, built
//! once during initialization and passed to the tree scanner. Each
//! registration declares a unique parser name, the parser implementation to
//! run, and the glob patterns it handles; the registry flattens them to a
//! pattern-to-parser mapping.

use vstd::prelude::*;

use crate::recipes::ParserKind;
use crate::sequences::lemma_vec_deep_view_push;

verus! {

/// The mathematical value of a [`ParserRegistration`].
#[verifier::ext_equal]
pub ghost struct RegistrationView {
    pub name: Seq<char>,
    pub kind: ParserKind,
    pub patterns: Seq<Seq<char>>,
}

impl DeepView for ParserKind {
    type V = ParserKind;

    open spec fn deep_view(&self) -> ParserKind {
        *self
    }
}

/// One parser registration: a unique name, the parser implementation to run,
/// and the file-name glob patterns it handles.
#[derive(Debug, Clone)]
pub struct ParserRegistration {
    pub name: String,
    pub kind: ParserKind,
    pub patterns: Vec<String>,
}

impl View for ParserRegistration {
    type V = RegistrationView;

    open spec fn view(&self) -> RegistrationView {
        RegistrationView {
            name: self.name@,
            kind: self.kind,
            patterns: self.patterns.deep_view(),
        }
    }
}

impl DeepView for ParserRegistration {
    type V = RegistrationView;

    open spec fn deep_view(&self) -> RegistrationView {
        self.view()
    }
}

/// Some registration in `regs` carries the name `name`.
pub open spec fn spec_has_name(regs: Seq<RegistrationView>, name: Seq<char>) -> bool {
    exists|i: int| 0 <= i < regs.len() && #[trigger] regs[i].name == name
}

/// The pattern-to-parser pairs that `reg` contributes: one pair per declared
/// pattern.
pub open spec fn reg_pairs(reg: RegistrationView) -> Seq<(Seq<char>, ParserKind)> {
    reg.patterns.map_values(|p: Seq<char>| (p, reg.kind))
}

/// The registry flattened to pattern-to-parser pairs, in registration order.
pub open spec fn spec_pattern_pairs(regs: Seq<RegistrationView>) -> Seq<(Seq<char>, ParserKind)>
    decreases regs.len(),
{
    if regs.len() == 0 {
        Seq::empty()
    } else {
        spec_pattern_pairs(regs.drop_last()) + reg_pairs(regs.last())
    }
}

/// The registry: the full set of parser registrations, read-only after
/// initialization. Registration names are kept unique: a registration whose
/// name is already taken is refused.
#[derive(Debug, Clone)]
pub struct Registry {
    regs: Vec<ParserRegistration>,
}

impl View for Registry {
    type V = Seq<RegistrationView>;

    closed spec fn view(&self) -> Seq<RegistrationView> {
        self.regs.deep_view()
    }
}

/// The built-in registrations: the stone recipe format under
/// `*/stone.yaml`, and the YPKG package description format under
/// `*/package.yml`.
pub open spec fn spec_standard_registry() -> Seq<RegistrationView> {
    seq![
        RegistrationView {
            name: "stone_recipe"@,
            kind: ParserKind::Stone,
            patterns: seq!["*/stone.yaml"@],
        },
        RegistrationView {
            name: "ypkg_recipe"@,
            kind: ParserKind::Ypkg,
            patterns: seq!["*/package.yml"@],
        },
    ]
}

impl Registry {
    /// An empty registry.
    pub fn new() -> (r: Registry)
        ensures
            r@ == Seq::<RegistrationView>::empty(),
    {
        let r = Registry { regs: Vec::new() };
        proof {
            assert(r@ =~= Seq::<RegistrationView>::empty());
        }
        r
    }

    /// Registers one parser. Succeeds and appends the registration exactly
    /// when its name is not already taken; an already-registered name leaves
    /// the registry unchanged.
    pub fn register(&mut self, reg: ParserRegistration) -> (added: bool)
        ensures
            added == !spec_has_name(old(self)@, reg@.name),
            added ==> final(self)@ == old(self)@.push(reg@),
            !added ==> final(self)@ == old(self)@,
    {
        let n = self.regs.len();
        let mut i: usize = 0;
        while i < n
            invariant
                0 <= i <= n,
                n == self.regs@.len(),
                forall|j: int| 0 <= j < i ==> #[trigger] self@[j].name != reg@.name,
            decreases n - i,
        {
            proof {
                assert(self@[i as int] == self.regs@[i as int].deep_view());
            }
            if self.regs[i].name == reg.name {
                proof {
                    assert(self@[i as int].name == reg@.name);
                    assert(spec_has_name(self@, reg@.name));
                }
                return false;
            }
            i += 1;
        }
        proof {
            assert(self@.len() == self.regs@.len());
            assert(!spec_has_name(self@, reg@.name));
        }
        let ghost prev = self.regs;
        self.regs.push(reg);
        proof {
            lemma_vec_deep_view_push(self.regs, prev, reg);
        }
        true
    }

    /// The registry with the built-in format families registered.
    pub fn standard() -> (r: Registry)
        ensures
            r@ == spec_standard_registry(),
    {
        let mut stone_patterns: Vec<String> = Vec::new();
        stone_patterns.push(String::from_str("*/stone.yaml"));
        let mut ypkg_patterns: Vec<String> = Vec::new();
        ypkg_patterns.push(String::from_str("*/package.yml"));
        let mut regs: Vec<ParserRegistration> = Vec::new();
        regs.push(
            ParserRegistration {
                name: String::from_str("stone_recipe"),
                kind: ParserKind::Stone,
                patterns: stone_patterns,
            },
        );
        regs.push(
            ParserRegistration {
                name: String::from_str("ypkg_recipe"),
                kind: ParserKind::Ypkg,
                patterns: ypkg_patterns,
            },
        );
        let r = Registry { regs };
        proof {
            assert(r@ =~~= spec_standard_registry());
        }
        r
    }

    /// All registrations, in registration order.
    pub fn all(&self) -> (regs: &Vec<ParserRegistration>)
        ensures
            regs.deep_view() == self@,
    {
        &self.regs
    }

    /// The registry flattened to pattern-to-parser pairs: one pair per
    /// pattern of every registration, in registration order. A pattern
    /// declared by several registrations yields one pair per registration.
    pub fn patterns(&self) -> (out: Vec<(String, ParserKind)>)
        ensures
            out.deep_view() == spec_pattern_pairs(self@),
    {
        let mut out: Vec<(String, ParserKind)> = Vec::new();
        let n = self.regs.len();
        let mut i: usize = 0;
        while i < n
            invariant
                0 <= i <= n,
                n == self.regs@.len(),
                self@.len() == n,
                out.deep_view() == spec_pattern_pairs(self@.take(i as int)),
            decreases n - i,
        {
            let ghost rv = self@[i as int];
            proof {
                assert(rv == self.regs@[i as int].deep_view());
            }
            let reg = &self.regs[i];
            let m = reg.patterns.len();
            let mut j: usize = 0;
            while j < m
                invariant
                    0 <= j <= m,
                    m == reg.patterns@.len(),
                    rv == reg.deep_view(),
                    rv.patterns.len() == m,
                    out.deep_view() == spec_pattern_pairs(self@.take(i as int)) + reg_pairs(
                        rv,
                    ).take(j as int),
                decreases m - j,
            {
                let ghost prev = out;
                let pat = reg.patterns[j].clone();
                proof {
                    assert(rv.patterns[j as int] == reg.patterns@[j as int]@);
                }
                out.push((pat, reg.kind));
                j += 1;
                proof {
                    lemma_vec_deep_view_push(out, prev, (pat, reg.kind));
                    assert(reg_pairs(rv).take(j as int) =~= reg_pairs(rv).take(j - 1).push(
                        (rv.patterns[j - 1], rv.kind),
                    ));
                    assert(out.deep_view() =~= spec_pattern_pairs(self@.take(i as int))
                        + reg_pairs(rv).take(j as int));
                }
            }
            i += 1;
            proof {
                assert(self@.take(i as int).drop_last() =~= self@.take(i - 1));
                assert(self@.take(i as int).last() == rv);
                assert(reg_pairs(rv).take(m as int) =~= reg_pairs(rv));
                assert(out.deep_view() =~= spec_pattern_pairs(self@.take(i as int)));
            }
        }
        proof {
            assert(self@.take(n as int) =~= self@);
        }
        out
    }
}

} // verus!

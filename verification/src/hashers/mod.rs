//! The preset registry: the closed set of named hashing configurations, their
//! listing in declaration order and their case-insensitive lookup.

use vstd::prelude::*;
use crate::error::HashError;
use crate::hashers::argon2::{
    argon2_outcome, Argon2Variant, Argon2Version, HasherArgon2d, HasherArgon2i,
    HasherArgon2idFast, HasherArgon2idSecure,
};
use crate::hashers::bcrypt::{bcrypt_outcome, HasherBcrypt10, HasherBcrypt12, HasherBcrypt14};
use crate::text::{fold_str, folded, lemma_fold_erases_case, raised, same_chars};

pub mod argon2;
pub mod bcrypt;

verus! {

/// A way to hash a string: the hash string, or why there is none.
pub trait Hasher {
    fn hash(input: &str) -> Result<String, HashError>;
}

/// A named, fixed hashing configuration.
#[derive(Debug, Clone, Copy, PartialEq, Eq, Structural)]
pub enum Preset {
    /// Argon2id, 64 MiB of memory, 2 passes, 1 lane.
    Argon2idFast,
    /// Argon2id, 256 MiB of memory, 4 passes, 2 lanes.
    Argon2idSecure,
    /// Argon2i, 128 MiB of memory, 3 passes, 1 lane.
    Argon2i,
    /// Argon2d, 128 MiB of memory, 3 passes, 1 lane.
    Argon2d,
    /// bcrypt with work factor 10.
    Bcrypt10,
    /// bcrypt with work factor 12.
    Bcrypt12,
    /// bcrypt with work factor 14.
    Bcrypt14,
}

impl Preset {
    /// Every preset, in declaration order.
    pub open spec fn all() -> Seq<Preset> {
        seq![
            Preset::Argon2idFast,
            Preset::Argon2idSecure,
            Preset::Argon2i,
            Preset::Argon2d,
            Preset::Bcrypt10,
            Preset::Bcrypt12,
            Preset::Bcrypt14,
        ]
    }

    /// The position of this preset in [`Preset::all`].
    pub open spec fn ordinal(self) -> int {
        match self {
            Preset::Argon2idFast => 0,
            Preset::Argon2idSecure => 1,
            Preset::Argon2i => 2,
            Preset::Argon2d => 3,
            Preset::Bcrypt10 => 4,
            Preset::Bcrypt12 => 5,
            Preset::Bcrypt14 => 6,
        }
    }

    /// The canonical display name of this preset.
    pub open spec fn spec_name(self) -> Seq<char> {
        match self {
            Preset::Argon2idFast => "Argon2idFast"@,
            Preset::Argon2idSecure => "Argon2idSecure"@,
            Preset::Argon2i => "Argon2i"@,
            Preset::Argon2d => "Argon2d"@,
            Preset::Bcrypt10 => "Bcrypt10"@,
            Preset::Bcrypt12 => "Bcrypt12"@,
            Preset::Bcrypt14 => "Bcrypt14"@,
        }
    }

    /// The display names of all presets, in declaration order.
    pub open spec fn names() -> Seq<Seq<char>> {
        Seq::new(Preset::all().len(), |i: int| Preset::all()[i].spec_name())
    }

    /// Whether `s` names this preset, ASCII case aside.
    pub open spec fn answers_to(self, s: Seq<char>) -> bool {
        folded(s) == folded(self.spec_name())
    }

    /// The preset that `s` names, ASCII case aside, if there is one.
    pub open spec fn lookup(s: Seq<char>) -> Option<Preset> {
        if exists|p: Preset| p.answers_to(s) {
            Some(choose|p: Preset| p.answers_to(s))
        } else {
            None
        }
    }

    /// What holds of every outcome of this preset's hash computation: the
    /// hash string shows the preset's own configuration.
    pub open spec fn admits(self, r: Result<String, HashError>) -> bool {
        match self {
            Preset::Argon2idFast => argon2_outcome(
                Argon2Variant::Argon2id,
                Argon2Version::V0x13,
                65536,
                2,
                1,
                r,
            ),
            Preset::Argon2idSecure => argon2_outcome(
                Argon2Variant::Argon2id,
                Argon2Version::V0x13,
                262144,
                4,
                2,
                r,
            ),
            Preset::Argon2i => argon2_outcome(
                Argon2Variant::Argon2i,
                Argon2Version::V0x13,
                131072,
                3,
                1,
                r,
            ),
            Preset::Argon2d => argon2_outcome(
                Argon2Variant::Argon2d,
                Argon2Version::V0x13,
                131072,
                3,
                1,
                r,
            ),
            Preset::Bcrypt10 => bcrypt_outcome(10, r),
            Preset::Bcrypt12 => bcrypt_outcome(12, r),
            Preset::Bcrypt14 => bcrypt_outcome(14, r),
        }
    }

    /// The name under which this preset is shown and reported. Lookup takes
    /// it back to this preset.
    pub fn name(&self) -> (r: &'static str)
        ensures
            r@ == self.spec_name(),
            Preset::lookup(r@) == Some(*self),
    {
        proof {
            lemma_lookup_finds_own_name(*self);
        }
        match self {
            Preset::Argon2idFast => "Argon2idFast",
            Preset::Argon2idSecure => "Argon2idSecure",
            Preset::Argon2i => "Argon2i",
            Preset::Argon2d => "Argon2d",
            Preset::Bcrypt10 => "Bcrypt10",
            Preset::Bcrypt12 => "Bcrypt12",
            Preset::Bcrypt14 => "Bcrypt14",
        }
    }

    /// Every preset, in declaration order.
    pub fn variants() -> (r: Vec<Preset>)
        ensures
            r@ == Preset::all(),
    {
        let mut r: Vec<Preset> = Vec::new();
        r.push(Preset::Argon2idFast);
        r.push(Preset::Argon2idSecure);
        r.push(Preset::Argon2i);
        r.push(Preset::Argon2d);
        r.push(Preset::Bcrypt10);
        r.push(Preset::Bcrypt12);
        r.push(Preset::Bcrypt14);
        r
    }

    /// The display names of all presets, in declaration order.
    pub fn to_vec() -> (r: Vec<String>)
        ensures
            r@.len() == Preset::names().len(),
            forall|i: int| 0 <= i < r@.len() ==> (#[trigger] r@[i])@ == Preset::names()[i],
    {
        let table = Preset::variants();
        let mut r: Vec<String> = Vec::new();
        let mut i: usize = 0;
        while i < table.len()
            invariant
                i <= table.len(),
                table@ == Preset::all(),
                r@.len() == i,
                forall|j: int| 0 <= j < i ==> (#[trigger] r@[j])@ == Preset::names()[j],
            decreases table.len() - i,
        {
            r.push(table[i].name().to_owned());
            i += 1;
        }
        r
    }

    /// Hashes `input` under this preset, with a fresh random salt.
    pub fn hash(&self, input: &str) -> (r: Result<String, HashError>)
        ensures
            self.admits(r),
    {
        match self {
            Preset::Argon2idFast => HasherArgon2idFast::hash(input),
            Preset::Argon2idSecure => HasherArgon2idSecure::hash(input),
            Preset::Argon2i => HasherArgon2i::hash(input),
            Preset::Argon2d => HasherArgon2d::hash(input),
            Preset::Bcrypt10 => HasherBcrypt10::hash(input),
            Preset::Bcrypt12 => HasherBcrypt12::hash(input),
            Preset::Bcrypt14 => HasherBcrypt14::hash(input),
        }
    }

    /// Looks a preset up by its name, ASCII case aside.
    pub fn from_str(s: &str) -> (r: Option<Preset>)
        ensures
            r == Preset::lookup(s@),
            r matches Some(p) ==> p.answers_to(s@),
            r is None ==> forall|p: Preset| !p.answers_to(s@),
    {
        let key = fold_str(s);
        let table = Preset::variants();
        let mut i: usize = 0;
        while i < table.len()
            invariant
                i <= table.len(),
                table@ == Preset::all(),
                key@ == folded(s@),
                forall|j: int| 0 <= j < i ==> !(#[trigger] Preset::all()[j]).answers_to(s@),
            decreases table.len() - i,
        {
            let p = table[i];
            let n = fold_str(p.name());
            if same_chars(&key, &n) {
                proof {
                    assert(p.answers_to(s@));
                    lemma_names_differ(p, choose|q: Preset| q.answers_to(s@));
                }
                return Some(p);
            }
            i += 1;
        }
        proof {
            assert forall|p: Preset| !p.answers_to(s@) by {
                assert(Preset::all()[p.ordinal()] == p);
            }
        }
        None
    }
}

impl AsRef<str> for Preset {
    /// The name under which this preset is shown and reported.
    fn as_ref(&self) -> (r: &str)
        ensures
            r@ == self.spec_name(),
    {
        self.name()
    }
}

/// The length of each display name, and the character that tells apart the
/// names of equal length.
proof fn lemma_name_shape(p: Preset)
    ensures
        match p {
            Preset::Argon2idFast => p.spec_name().len() == 12,
            Preset::Argon2idSecure => p.spec_name().len() == 14,
            Preset::Argon2i => p.spec_name().len() == 7 && p.spec_name()[6] == 'i',
            Preset::Argon2d => p.spec_name().len() == 7 && p.spec_name()[6] == 'd',
            Preset::Bcrypt10 => p.spec_name().len() == 8 && p.spec_name()[7] == '0',
            Preset::Bcrypt12 => p.spec_name().len() == 8 && p.spec_name()[7] == '2',
            Preset::Bcrypt14 => p.spec_name().len() == 8 && p.spec_name()[7] == '4',
        },
{
    reveal_strlit("Argon2idFast");
    reveal_strlit("Argon2idSecure");
    reveal_strlit("Argon2i");
    reveal_strlit("Argon2d");
    reveal_strlit("Bcrypt10");
    reveal_strlit("Bcrypt12");
    reveal_strlit("Bcrypt14");
}

/// Two presets whose names agree up to ASCII case are the same preset.
pub proof fn lemma_names_differ(p: Preset, q: Preset)
    requires
        folded(p.spec_name()) == folded(q.spec_name()),
    ensures
        p == q,
{
    lemma_name_shape(p);
    lemma_name_shape(q);
    let a = folded(p.spec_name());
    let b = folded(q.spec_name());
    assert(a.len() == b.len());
    if a.len() == 7 {
        assert(a[6] == b[6]);
    } else if a.len() == 8 {
        assert(a[7] == b[7]);
    }
}

/// Two presets of the same display name are the same preset.
pub proof fn lemma_name_identifies(p: Preset, q: Preset)
    requires
        p.spec_name() == q.spec_name(),
    ensures
        p == q,
{
    lemma_names_differ(p, q);
}

/// A text names the preset that lookup gives for it, and no other; lookup
/// gives nothing exactly for the texts that name no preset.
pub proof fn lemma_lookup_is_exact(s: Seq<char>, p: Preset)
    ensures
        Preset::lookup(s) == Some(p) <==> p.answers_to(s),
        Preset::lookup(s) is None <==> forall|q: Preset| !q.answers_to(s),
{
    if p.answers_to(s) {
        lemma_names_differ(p, choose|q: Preset| q.answers_to(s));
    }
}

/// Lookup does not see the ASCII case of a text: two texts that agree up to
/// ASCII case name the same preset, or both none.
pub proof fn lemma_lookup_ignores_case(s: Seq<char>, t: Seq<char>)
    requires
        folded(s) == folded(t),
    ensures
        Preset::lookup(s) == Preset::lookup(t),
{
    match Preset::lookup(s) {
        Some(p) => {
            assert(p.answers_to(t));
            lemma_lookup_is_exact(t, p);
        },
        None => {
            assert forall|q: Preset| !q.answers_to(t) by {
                assert(!q.answers_to(s));
            }
        },
    }
}

/// Every listed name resolves to its preset in upper case, in lower case and
/// as it is listed.
pub proof fn lemma_lookup_any_case(p: Preset)
    ensures
        Preset::lookup(p.spec_name()) == Some(p),
        Preset::lookup(raised(p.spec_name())) == Some(p),
        Preset::lookup(folded(p.spec_name())) == Some(p),
{
    lemma_lookup_finds_own_name(p);
    lemma_fold_erases_case(p.spec_name());
    lemma_lookup_ignores_case(raised(p.spec_name()), p.spec_name());
    lemma_lookup_ignores_case(folded(p.spec_name()), p.spec_name());
}

/// Looking up a preset's own display name finds that preset.
pub proof fn lemma_lookup_finds_own_name(p: Preset)
    ensures
        Preset::lookup(p.spec_name()) == Some(p),
{
    assert(p.answers_to(p.spec_name()));
    lemma_names_differ(p, choose|q: Preset| q.answers_to(p.spec_name()));
}

} // verus!

//! Reading the textual forms: bump magnitudes and `<package> <magnitude>`
//! instructions.

use crate::package::texts;
use crate::version::BumpType;
use vstd::prelude::*;

verus! {

/// What `str::to_lowercase` makes of a string.
pub uninterp spec fn lower_of(s: Seq<char>) -> Seq<char>;

/// Relies on `str::to_lowercase`: the lowercase mapping of the characters,
/// which depends on the characters alone; an empty string stays empty.
#[verifier::external_body]
fn lowercase(s: &str) -> (r: String)
    ensures
        r@ == lower_of(s@),
        s@.len() == 0 ==> r@.len() == 0,
{
    s.to_lowercase()
}

/// The magnitude that a lowercase word names.
pub open spec fn bump_type_named(t: Seq<char>) -> Option<BumpType> {
    if t == seq!['m', 'a', 'j', 'o', 'r'] {
        Some(BumpType::Major)
    } else if t == seq!['m', 'i', 'n', 'o', 'r'] {
        Some(BumpType::Minor)
    } else if t == seq!['p', 'a', 't', 'c', 'h'] {
        Some(BumpType::Patch)
    } else {
        None
    }
}

/// The message for a word that names no magnitude.
pub open spec fn invalid_bump_type_message(s: Seq<char>) -> Seq<char> {
    "Invalid bump type: "@ + s
}

/// The message for an instruction without a space.
pub open spec fn invalid_instruction_message(s: Seq<char>) -> Seq<char> {
    "Invalid Bump Instruction: '"@ + s + "'"@
}

/// The message for a package missing from a branch.
pub open spec fn not_found_message(name: Seq<char>, branch: Seq<char>) -> Seq<char> {
    "Package "@ + name + " not found on branch "@ + branch
}

/// The position of the first space in `s`.
pub open spec fn first_space(s: Seq<char>) -> Option<int>
    decreases s.len(),
{
    if s.len() == 0 {
        None
    } else {
        match first_space(s.drop_last()) {
            Some(i) => Some(i),
            None => if s.last() == ' ' {
                Some(s.len() - 1)
            } else {
                None
            },
        }
    }
}

proof fn lemma_first_space(s: Seq<char>, i: int)
    requires
        0 <= i <= s.len(),
        forall|j: int| 0 <= j < i ==> s[j] != ' ',
    ensures
        i < s.len() && s[i] == ' ' ==> first_space(s) == Some(i),
        i == s.len() ==> first_space(s) is None,
    decreases s.len(),
{
    if s.len() > 0 {
        if i < s.len() - 1 {
            lemma_first_space(s.drop_last(), i);
        } else {
            assert(forall|j: int| 0 <= j < s.len() - 1 ==> s.drop_last()[j] == s[j]);
            lemma_first_space(s.drop_last(), s.len() - 1);
        }
    }
}

/// The position of the first space in `s`, if any.
pub fn find_space(s: &str) -> (r: Option<usize>)
    ensures
        match r {
            Some(i) => i < s@.len() && first_space(s@) == Some(i as int),
            None => first_space(s@) is None,
        },
{
    let n = s.unicode_len();
    let mut i: usize = 0;
    while i < n
        invariant
            n == s@.len(),
            i <= n,
            forall|j: int| 0 <= j < i ==> s@[j] != ' ',
        decreases n - i,
    {
        if s.get_char(i) == ' ' {
            proof {
                lemma_first_space(s@, i as int);
            }
            return Some(i);
        }
        i = i + 1;
    }
    proof {
        lemma_first_space(s@, i as int);
    }
    None
}

/// Whether two strings hold the same characters.
pub fn str_eq(a: &str, b: &str) -> (r: bool)
    ensures
        r == (a@ == b@),
{
    let n = a.unicode_len();
    if n != b.unicode_len() {
        return false;
    }
    let mut i: usize = 0;
    while i < n
        invariant
            n == a@.len(),
            n == b@.len(),
            i <= n,
            forall|j: int| 0 <= j < i ==> a@[j] == b@[j],
        decreases n - i,
    {
        if a.get_char(i) != b.get_char(i) {
            return false;
        }
        i = i + 1;
    }
    assert(a@ =~= b@);
    true
}

/// `a` followed by `b`.
pub fn concat(a: &str, b: &str) -> (r: String)
    ensures
        r@ == a@ + b@,
{
    let mut r = String::from_str(a);
    r.append(b);
    r
}

impl BumpType {
    /// The magnitude that a lowercase word names, if any.
    pub fn from_lowercase(t: &str) -> (r: Option<BumpType>)
        ensures
            r == bump_type_named(t@),
    {
        proof {
            reveal_strlit("major");
            reveal_strlit("minor");
            reveal_strlit("patch");
            assert("major"@ =~= seq!['m', 'a', 'j', 'o', 'r']);
            assert("minor"@ =~= seq!['m', 'i', 'n', 'o', 'r']);
            assert("patch"@ =~= seq!['p', 'a', 't', 'c', 'h']);
        }
        if str_eq(t, "major") {
            Some(BumpType::Major)
        } else if str_eq(t, "minor") {
            Some(BumpType::Minor)
        } else if str_eq(t, "patch") {
            Some(BumpType::Patch)
        } else {
            None
        }
    }

    /// Reads a magnitude, in any letter case.
    pub fn from_str(s: &str) -> (r: Result<BumpType, String>)
        ensures
            match bump_type_named(lower_of(s@)) {
                Some(b) => r == Ok::<BumpType, String>(b),
                None => r matches Err(m) && m@ == invalid_bump_type_message(s@),
            },
    {
        let lowered = lowercase(s);
        match BumpType::from_lowercase(lowered.as_str()) {
            Some(b) => Ok(b),
            None => Err(concat("Invalid bump type: ", s)),
        }
    }
}


/// `s` with each space turned into an underscore.
pub open spec fn underscored(s: Seq<char>) -> Seq<char> {
    s.map_values(
        |c: char|
            if c == ' ' {
                '_'
            } else {
                c
            },
    )
}

/// The parts, with `sep` between each two.
pub open spec fn joined(parts: Seq<Seq<char>>, sep: Seq<char>) -> Seq<char>
    decreases parts.len(),
{
    if parts.len() == 0 {
        Seq::empty()
    } else if parts.len() == 1 {
        parts[0]
    } else {
        joined(parts.drop_last(), sep) + sep + parts.last()
    }
}

/// The branch that carries a stable bump over to the prerelease line.
pub open spec fn propagation_branch(instructions: Seq<Seq<char>>, date: Seq<char>) -> Seq<char> {
    "propagate-"@ + joined(instructions.map_values(|s: Seq<char>| underscored(s)), "-"@)
        + "-bump-to-prerelease-"@ + date
}

/// `s` with each space turned into an underscore.
pub fn underscore_spaces(s: &str) -> (r: String)
    ensures
        r@ == underscored(s@),
{
    let n = s.unicode_len();
    let mut r = String::new();
    let mut i: usize = 0;
    while i < n
        invariant
            n == s@.len(),
            i <= n,
            r@ =~= underscored(s@.take(i as int)),
        decreases n - i,
    {
        let c = s.get_char(i);
        if c == ' ' {
            proof {
                reveal_strlit("_");
            }
            r.append("_");
            assert("_"@ =~= seq!['_']);
        } else {
            r.append(s.substring_char(i, i + 1));
        }
        assert(underscored(s@.take(i as int + 1)) =~= underscored(s@.take(i as int)).push(
            if c == ' ' {
                '_'
            } else {
                c
            },
        ));
        i = i + 1;
    }
    assert(s@.take(i as int) =~= s@);
    r
}

/// The name of the branch that carries the stable bumps `instructions`,
/// made on `date`, over to the prerelease line.
pub fn propagation_branch_name(instructions: &Vec<String>, date: &str) -> (r: String)
    ensures
        r@ == propagation_branch(texts(instructions@), date@),
{
    let ghost parts = texts(instructions@).map_values(|s: Seq<char>| underscored(s));
    let mut body = String::new();
    let mut k: usize = 0;
    while k < instructions.len()
        invariant
            k <= instructions@.len(),
            parts == texts(instructions@).map_values(|s: Seq<char>| underscored(s)),
            body@ == joined(parts.take(k as int), "-"@),
        decreases instructions@.len() - k,
    {
        let part = underscore_spaces(instructions[k].as_str());
        assert(parts.take(k as int + 1).drop_last() =~= parts.take(k as int));
        assert(parts[k as int] == part@);
        if k == 0 {
            body = part;
            assert(body@ == joined(parts.take(1), "-"@));
        } else {
            body.append("-");
            body.append(part.as_str());
        }
        k = k + 1;
    }
    assert(parts.take(k as int) =~= parts);
    let a = concat("propagate-", body.as_str());
    let b = concat(a.as_str(), "-bump-to-prerelease-");
    let r = concat(b.as_str(), date);
    assert(r@ =~= propagation_branch(texts(instructions@), date@));
    r
}

} // verus!

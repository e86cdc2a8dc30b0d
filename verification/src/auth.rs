//! Password handling: strength scoring as pure logic, hashing and
//! verification through the Argon2id implementation.

use vstd::prelude::*;

verus! {

use vstd::string::StrSliceExecFns;

/// Feedback on a candidate password.
#[derive(Debug, PartialEq, Eq)]
pub struct PasswordStrength {
    pub strength: String,
    pub score: i32,
    pub feedback: Vec<String>,
}

/// What `char::is_uppercase` answers for a character.
pub uninterp spec fn char_uppercase(c: char) -> bool;

/// What `char::is_lowercase` answers for a character.
pub uninterp spec fn char_lowercase(c: char) -> bool;

/// What `char::is_numeric` answers for a character.
pub uninterp spec fn char_numeric(c: char) -> bool;

/// What `char::is_alphanumeric` answers for a character.
pub uninterp spec fn char_alphanumeric(c: char) -> bool;

/// Relies on `char::is_uppercase`: a classification of the character alone.
#[verifier::external_body]
fn is_uppercase_char(c: char) -> (r: bool)
    ensures
        r == char_uppercase(c),
{
    c.is_uppercase()
}

/// Relies on `char::is_lowercase`: a classification of the character alone.
#[verifier::external_body]
fn is_lowercase_char(c: char) -> (r: bool)
    ensures
        r == char_lowercase(c),
{
    c.is_lowercase()
}

/// Relies on `char::is_numeric`: a classification of the character alone.
#[verifier::external_body]
fn is_numeric_char(c: char) -> (r: bool)
    ensures
        r == char_numeric(c),
{
    c.is_numeric()
}

/// Relies on `char::is_alphanumeric`: a classification of the character
/// alone.
#[verifier::external_body]
fn is_alphanumeric_char(c: char) -> (r: bool)
    ensures
        r == char_alphanumeric(c),
{
    c.is_alphanumeric()
}

/// Whether `PasswordHash::new` accepts this text as a PHC-format hash.
pub uninterp spec fn phc_hash_valid(h: Seq<char>) -> bool;

/// Whether Argon2 verification of this password against this PHC hash
/// succeeds; both determine the outcome completely.
pub uninterp spec fn argon2_verified(password: Seq<char>, hash: Seq<char>) -> bool;

/// Relies on `argon2::Argon2::hash_password`, which draws a fresh random
/// salt, so only success or failure is reported; and on the PHC text of a
/// `phc::PasswordHash` parsing back (`phc_hash_valid`).
#[verifier::external_body]
fn argon2_hash(password: &str) -> (r: Result<String, String>)
    ensures
        r matches Ok(h) ==> phc_hash_valid(h@),
{
    match argon2::PasswordHasher::hash_password(&argon2::Argon2::default(), password.as_bytes()) {
        Ok(h) => Ok(h.to_string()),
        Err(e) => Err(format!("Failed to hash password: {}", e)),
    }
}

/// Relies on `phc::PasswordHash::new` to parse the stored hash and on
/// `argon2::Argon2::verify_password` to check the password against it; both
/// are functions of their inputs alone.
#[verifier::external_body]
fn argon2_check(password: &str, hash: &str) -> (r: Result<bool, String>)
    ensures
        r is Ok <==> phc_hash_valid(hash@),
        r matches Ok(b) ==> b == argon2_verified(password@, hash@),
{
    match argon2::PasswordHash::new(hash) {
        Ok(parsed) => {
            let outcome = argon2::PasswordVerifier::verify_password(
                &argon2::Argon2::default(),
                password.as_bytes(),
                &parsed,
            );
            Ok(outcome.is_ok())
        },
        Err(e) => Err(format!("Invalid password hash format: {}", e)),
    }
}

pub open spec fn any_uppercase(s: Seq<char>) -> bool {
    exists|i: int| 0 <= i < s.len() && char_uppercase(#[trigger] s[i])
}

pub open spec fn any_lowercase(s: Seq<char>) -> bool {
    exists|i: int| 0 <= i < s.len() && char_lowercase(#[trigger] s[i])
}

pub open spec fn any_numeric(s: Seq<char>) -> bool {
    exists|i: int| 0 <= i < s.len() && char_numeric(#[trigger] s[i])
}

pub open spec fn any_special(s: Seq<char>) -> bool {
    exists|i: int| 0 <= i < s.len() && !char_alphanumeric(#[trigger] s[i])
}

/// One point each for eight characters, twelve characters, an uppercase
/// letter, a lowercase letter, a digit, and a character outside both.
pub open spec fn password_score(s: Seq<char>) -> int {
    (if s.len() >= 8 {
        1int
    } else {
        0int
    }) + (if s.len() >= 12 {
        1int
    } else {
        0int
    }) + (if any_uppercase(s) {
        1int
    } else {
        0int
    }) + (if any_lowercase(s) {
        1int
    } else {
        0int
    }) + (if any_numeric(s) {
        1int
    } else {
        0int
    }) + (if any_special(s) {
        1int
    } else {
        0int
    })
}

/// The label a score reads as.
pub open spec fn strength_label(score: int) -> Seq<char> {
    if score <= 2 {
        "weak"@
    } else if score <= 4 {
        "moderate"@
    } else if score <= 6 {
        "strong"@
    } else {
        "very_strong"@
    }
}

/// The advice the scorer hands back, in a fixed order.
pub open spec fn password_feedback(s: Seq<char>) -> Seq<Seq<char>> {
    let f0: Seq<Seq<char>> = if s.len() < 8 {
        seq!["Password should be at least 8 characters long"@]
    } else {
        Seq::empty()
    };
    let f1: Seq<Seq<char>> = if !any_uppercase(s) {
        f0.push("Include uppercase letters"@)
    } else {
        f0
    };
    let f2: Seq<Seq<char>> = if !any_lowercase(s) {
        f1.push("Include lowercase letters"@)
    } else {
        f1
    };
    let f3: Seq<Seq<char>> = if !any_numeric(s) {
        f2.push("Include numbers"@)
    } else {
        f2
    };
    if !any_special(s) {
        f3.push("Include special characters"@)
    } else {
        f3
    }
}

/// Scores a candidate password and explains what is missing.
pub fn check_password_strength(password: &String) -> (r: PasswordStrength)
    ensures
        r.score == password_score(password@),
        r.strength@ == strength_label(r.score as int),
        crate::text::strings_view(r.feedback@) == password_feedback(password@),
{
    let s = password.as_str();
    let n = s.unicode_len();
    let mut has_uppercase = false;
    let mut has_lowercase = false;
    let mut has_digit = false;
    let mut has_special = false;
    let mut i: usize = 0;
    while i < n
        invariant
            i <= n,
            n == password@.len(),
            s@ == password@,
            has_uppercase == exists|j: int| 0 <= j < i && char_uppercase(#[trigger] password@[j]),
            has_lowercase == exists|j: int| 0 <= j < i && char_lowercase(#[trigger] password@[j]),
            has_digit == exists|j: int| 0 <= j < i && char_numeric(#[trigger] password@[j]),
            has_special == exists|j: int|
                0 <= j < i && !char_alphanumeric(#[trigger] password@[j]),
        decreases n - i,
    {
        let c = s.get_char(i);
        if is_uppercase_char(c) {
            has_uppercase = true;
        }
        if is_lowercase_char(c) {
            has_lowercase = true;
        }
        if is_numeric_char(c) {
            has_digit = true;
        }
        if !is_alphanumeric_char(c) {
            has_special = true;
        }
        i += 1;
    }
    proof {
        assert(has_uppercase == any_uppercase(password@));
        assert(has_lowercase == any_lowercase(password@));
        assert(has_digit == any_numeric(password@));
        assert(has_special == any_special(password@));
    }

    let length = n;
    let mut score: i32 = 0;
    let mut feedback: Vec<String> = Vec::new();
    let ghost fb0 = crate::text::strings_view(feedback@);

    if length >= 8 {
        score += 1;
    } else {
        feedback.push("Password should be at least 8 characters long".to_owned());
    }
    if length >= 12 {
        score += 1;
    }
    proof {
        assert(crate::text::strings_view(feedback@) =~= (if password@.len() < 8 {
            seq!["Password should be at least 8 characters long"@]
        } else {
            Seq::<Seq<char>>::empty()
        }));
    }

    if has_uppercase {
        score += 1;
    } else {
        let ghost fb = crate::text::strings_view(feedback@);
        feedback.push("Include uppercase letters".to_owned());
        proof {
            assert(crate::text::strings_view(feedback@) =~= fb.push(
                "Include uppercase letters"@,
            ));
        }
    }
    if has_lowercase {
        score += 1;
    } else {
        let ghost fb = crate::text::strings_view(feedback@);
        feedback.push("Include lowercase letters".to_owned());
        proof {
            assert(crate::text::strings_view(feedback@) =~= fb.push(
                "Include lowercase letters"@,
            ));
        }
    }
    if has_digit {
        score += 1;
    } else {
        let ghost fb = crate::text::strings_view(feedback@);
        feedback.push("Include numbers".to_owned());
        proof {
            assert(crate::text::strings_view(feedback@) =~= fb.push("Include numbers"@));
        }
    }
    if has_special {
        score += 1;
    } else {
        let ghost fb = crate::text::strings_view(feedback@);
        feedback.push("Include special characters".to_owned());
        proof {
            assert(crate::text::strings_view(feedback@) =~= fb.push(
                "Include special characters"@,
            ));
        }
    }

    let strength = if score <= 2 {
        "weak".to_owned()
    } else if score <= 4 {
        "moderate".to_owned()
    } else if score <= 6 {
        "strong".to_owned()
    } else {
        "very_strong".to_owned()
    };

    PasswordStrength { strength, score, feedback }
}

/// Hashes a password with Argon2id under a fresh random salt. Empty and
/// short passwords are rejected before any hashing; what a successful call
/// returns is a PHC-format hash string that `verify_password` will accept.
pub fn hash_password(password: &String) -> (r: Result<String, String>)
    ensures
        password@.len() == 0 ==> (r matches Err(e) && e@ == "Password cannot be empty"@),
        0 < password@.len() < 8 ==> (r matches Err(e) && e@
            == "Password must be at least 8 characters long"@),
        r matches Ok(h) ==> phc_hash_valid(h@),
{
    let s = password.as_str();
    let n = s.unicode_len();
    if n == 0 {
        return Err("Password cannot be empty".to_owned());
    }
    if n < 8 {
        return Err("Password must be at least 8 characters long".to_owned());
    }
    argon2_hash(s)
}

/// Verifies a password against a stored PHC-format hash. Empty inputs are
/// rejected; a hash that does not parse is an error; otherwise the result
/// reports exactly whether the password matches.
pub fn verify_password(password: &String, hashed_password: &String) -> (r: Result<bool, String>)
    ensures
        password@.len() == 0 ==> (r matches Err(e) && e@ == "Password cannot be empty"@),
        password@.len() > 0 && hashed_password@.len() == 0 ==> (r matches Err(e) && e@
            == "Hashed password cannot be empty"@),
        password@.len() > 0 && hashed_password@.len() > 0 ==> {
            &&& r is Ok <==> phc_hash_valid(hashed_password@)
            &&& (r matches Ok(b) ==> b == argon2_verified(password@, hashed_password@))
        },
{
    let s = password.as_str();
    let h = hashed_password.as_str();
    if s.unicode_len() == 0 {
        return Err("Password cannot be empty".to_owned());
    }
    if h.unicode_len() == 0 {
        return Err("Hashed password cannot be empty".to_owned());
    }
    argon2_check(s, h)
}

} // verus!

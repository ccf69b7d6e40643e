//! Settings of a server that runs games, read from plain values.

use vstd::prelude::*;
use vstd::string::*;
use crate::tokens::{chars_of, is_space, spec_is_space};

verus! {

/// Why the settings are not enough to run with.
#[derive(Clone, Copy, Debug, PartialEq, Eq, Structural)]
pub enum ConfigError {
    MissingDatabaseUrl,
}

impl ConfigError {
    /// What to tell the operator.
    pub fn message(&self) -> (text: String)
        ensures
            text@
                == "Missing database URL for cutthroat persistence. Set `CUTTHROAT_DATABASE_URL` (preferred) or `DATABASE_URL`."@,
    {
        "Missing database URL for cutthroat persistence. Set `CUTTHROAT_DATABASE_URL` (preferred) or `DATABASE_URL`.".to_owned()
    }
}

/// The database to use: the one named for this service, else the general
/// one.
pub fn resolve_database_url_from(
    cutthroat_database_url: Option<String>,
    database_url: Option<String>,
) -> (r: Result<String, ConfigError>)
    ensures
        match r {
            Ok(url) => match cutthroat_database_url {
                Some(own) => url == own,
                None => database_url == Some(url),
            },
            Err(e) => cutthroat_database_url is None && database_url is None && e
                == ConfigError::MissingDatabaseUrl,
        },
{
    match cutthroat_database_url {
        Some(own) => Ok(own),
        None => match database_url {
            Some(general) => Ok(general),
            None => Err(ConfigError::MissingDatabaseUrl),
        },
    }
}

/// The number of whitespace characters that `text` begins with.
pub open spec fn leading_spaces(text: Seq<char>) -> nat
    decreases text.len(),
{
    if text.len() > 0 && spec_is_space(text[0]) {
        1 + leading_spaces(text.drop_first())
    } else {
        0
    }
}

/// The number of whitespace characters that `text` ends with.
pub open spec fn trailing_spaces(text: Seq<char>) -> nat
    decreases text.len(),
{
    if text.len() > 0 && spec_is_space(text.last()) {
        1 + trailing_spaces(text.drop_last())
    } else {
        0
    }
}

/// The text without the whitespace around it.
pub open spec fn trimmed(text: Seq<char>) -> Seq<char> {
    let a = leading_spaces(text);
    if a >= text.len() {
        Seq::empty()
    } else {
        text.subrange(a as int, text.len() - trailing_spaces(text))
    }
}

/// Whether the two letters are the same but for their case; `lower` is a
/// small ASCII letter.
pub open spec fn same_letter(c: char, lower: char) -> bool {
    c == lower || c as u32 + 32 == lower as u32
}

/// Whether the text is `true`, in small or capital letters, with whitespace
/// around it or none.
pub open spec fn says_true(text: Seq<char>) -> bool {
    let t = trimmed(text);
    t.len() == 4 && same_letter(t[0], 't') && same_letter(t[1], 'r') && same_letter(t[2], 'u')
        && same_letter(t[3], 'e')
}

proof fn lemma_leading_spaces(text: Seq<char>, n: int)
    requires
        0 <= n <= text.len(),
        forall|i: int| 0 <= i < n ==> spec_is_space(#[trigger] text[i]),
        n < text.len() ==> !spec_is_space(text[n]),
    ensures
        leading_spaces(text) == n,
    decreases n,
{
    if n > 0 {
        let rest = text.drop_first();
        assert forall|i: int| 0 <= i < n - 1 implies spec_is_space(#[trigger] rest[i]) by {
            assert(rest[i] == text[i + 1]);
        }
        lemma_leading_spaces(rest, n - 1);
    }
}

proof fn lemma_trailing_spaces(text: Seq<char>, n: int)
    requires
        0 <= n <= text.len(),
        forall|i: int| text.len() - n <= i < text.len() ==> spec_is_space(#[trigger] text[i]),
        n < text.len() ==> !spec_is_space(text[text.len() - n - 1]),
    ensures
        trailing_spaces(text) == n,
    decreases n,
{
    if n > 0 {
        let rest = text.drop_last();
        assert forall|i: int| rest.len() - (n - 1) <= i < rest.len() implies spec_is_space(
            #[trigger] rest[i],
        ) by {
            assert(rest[i] == text[i]);
        }
        lemma_trailing_spaces(rest, n - 1);
    }
}

fn is_letter(c: char, lower: char) -> (b: bool)
    requires
        lower as u32 >= 32,
    ensures
        b == same_letter(c, lower),
{
    c == lower || (c as u32) == (lower as u32) - 32
}

/// Whether migrations are to be run at the start: only where the setting
/// says `true`.
pub fn resolve_auto_run_migrations_from(value: Option<String>) -> (b: bool)
    ensures
        b == match value {
            Some(raw) => says_true(raw@),
            None => false,
        },
{
    let raw = match value {
        Some(raw) => raw,
        None => {
            return false;
        },
    };
    let text = chars_of(raw.as_str());
    let n = text.len();
    let mut a: usize = 0;
    while a < n && is_space(text[a])
        invariant
            a <= n,
            n == text@.len(),
            forall|i: int| 0 <= i < a ==> spec_is_space(#[trigger] text@[i]),
        decreases n - a,
    {
        a = a + 1;
    }
    proof {
        lemma_leading_spaces(text@, a as int);
    }
    if a >= n {
        return false;
    }
    let mut e: usize = n;
    while e > 0 && is_space(text[e - 1])
        invariant
            e <= n,
            n == text@.len(),
            forall|i: int| e <= i < n ==> spec_is_space(#[trigger] text@[i]),
        decreases e,
    {
        e = e - 1;
    }
    proof {
        lemma_trailing_spaces(text@, n - e);
        assert(e > a);
    }
    if e - a != 4 {
        return false;
    }
    proof {
        let t = trimmed(text@);
        assert(t[0] == text@[a as int]);
        assert(t[1] == text@[a + 1]);
        assert(t[2] == text@[a + 2]);
        assert(t[3] == text@[a + 3]);
    }
    is_letter(text[a], 't') && is_letter(text[a + 1], 'r') && is_letter(text[a + 2], 'u')
        && is_letter(text[a + 3], 'e')
}

} // verus!

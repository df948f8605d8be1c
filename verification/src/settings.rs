//! Application settings: the backend URL, read from the lines of a `.env`
//! file and overridden by the environment.
use vstd::prelude::*;

use crate::text::{chars_of, string_from_chars, trim, trim_str};

verus! {

/// `i` is the position of the first `c` in `s`.
pub open spec fn is_first_index(s: Seq<char>, c: char, i: int) -> bool {
    &&& 0 <= i < s.len()
    &&& s[i] == c
    &&& forall|k: int| 0 <= k < i ==> #[trigger] s[k] != c
}

/// `s` split around its first `c`, if it has one (`str::split_once`).
pub open spec fn split_once_spec(s: Seq<char>, c: char) -> Option<(Seq<char>, Seq<char>)> {
    if exists|i: int| is_first_index(s, c, i) {
        let i = choose|i: int| is_first_index(s, c, i);
        Some((s.take(i), s.skip(i + 1)))
    } else {
        None
    }
}

/// The key and value that a line of a `.env` file sets: none for an empty
/// line, a comment (starting with `#`) or a line without `=`; else the
/// trimmed text before and after the first `=`.
pub open spec fn env_entry(line: Seq<char>) -> Option<(Seq<char>, Seq<char>)> {
    if line.len() == 0 || line[0] == '#' {
        None
    } else {
        match split_once_spec(line, '=') {
            Some((k, v)) => Some((trim(k), trim(v))),
            None => None,
        }
    }
}

/// The key of the backend URL.
pub open spec fn backend_url_key() -> Seq<char> {
    "BACKEND_URL"@
}

/// The backend URL a `.env` file sets: the value of its last `BACKEND_URL`
/// entry (later entries overwrite earlier ones), or empty when it has none.
pub open spec fn backend_url_from(lines: Seq<Seq<char>>) -> Seq<char>
    decreases lines.len(),
{
    if lines.len() == 0 {
        Seq::empty()
    } else {
        match env_entry(lines.last()) {
            Some((k, v)) => if k == backend_url_key() {
                v
            } else {
                backend_url_from(lines.drop_last())
            },
            None => backend_url_from(lines.drop_last()),
        }
    }
}

/// The key and value a line of a `.env` file sets.
pub fn parse_env_line(line: &str) -> (r: Option<(String, String)>)
    ensures
        match r {
            Some((k, v)) => env_entry(line@) == Some((k@, v@)),
            None => env_entry(line@) is None,
        },
{
    let chars = chars_of(line);
    if chars.len() == 0 || chars[0] == '#' {
        return None;
    }
    let mut i: usize = 0;
    while i < chars.len() && chars[i] != '='
        invariant
            chars@ == line@,
            i <= chars.len(),
            forall|k: int| 0 <= k < i ==> #[trigger] chars@[k] != '=',
        decreases chars.len() - i,
    {
        i = i + 1;
    }
    if i == chars.len() {
        assert(!exists|j: int| is_first_index(line@, '=', j));
        return None;
    }
    proof {
        assert(is_first_index(line@, '=', i as int));
        let j = choose|j: int| is_first_index(line@, '=', j);
        assert(j == i) by {
            if j < i {
                assert(line@[j] != '=');
            } else if j > i {
                assert(line@[i as int] != '=');
            }
        }
    }
    let mut before: Vec<char> = Vec::new();
    let mut k: usize = 0;
    while k < i
        invariant
            k <= i,
            i < chars.len(),
            before@ == chars@.take(k as int),
        decreases i - k,
    {
        before.push(chars[k]);
        assert(chars@.take(k + 1) =~= chars@.take(k as int).push(chars@[k as int]));
        k = k + 1;
    }
    let mut after: Vec<char> = Vec::new();
    let mut m: usize = i + 1;
    while m < chars.len()
        invariant
            i < m <= chars.len(),
            after@ == chars@.subrange(i + 1, m as int),
        decreases chars.len() - m,
    {
        after.push(chars[m]);
        assert(chars@.subrange(i + 1, m + 1) =~= chars@.subrange(i + 1, m as int).push(
            chars@[m as int],
        ));
        m = m + 1;
    }
    assert(after@ =~= chars@.skip(i + 1));
    let key = string_from_chars(&before);
    let value = string_from_chars(&after);
    Some((trim_str(key.as_str()), trim_str(value.as_str())))
}

/// The settings of the client.
#[derive(Debug, Clone, PartialEq)]
pub struct AppSettings {
    /// The URL of the backend, to which endpoint paths are appended.
    pub backend_url: String,
}

impl AppSettings {
    /// The settings a `.env` file gives, from its lines.
    pub fn from_env_lines(lines: &Vec<String>) -> (s: Self)
        ensures
            s.backend_url@ == backend_url_from(lines@.map_values(|l: String| l@)),
    {
        proof {
            reveal_strlit("BACKEND_URL");
        }
        let ghost views = lines@.map_values(|l: String| l@);
        let key = String::from_str("BACKEND_URL");
        let mut url = String::new();
        let mut i: usize = 0;
        while i < lines.len()
            invariant
                i <= lines.len(),
                views == lines@.map_values(|l: String| l@),
                key@ == backend_url_key(),
                url@ == backend_url_from(views.take(i as int)),
            decreases lines.len() - i,
        {
            let entry = parse_env_line(lines[i].as_str());
            proof {
                assert(views.take(i + 1).drop_last() =~= views.take(i as int));
                assert(views.take(i + 1).last() == lines@[i as int]@);
            }
            match entry {
                Some((k, v)) => {
                    if k == key {
                        url = v;
                    }
                },
                None => {},
            }
            i = i + 1;
        }
        assert(views.take(lines.len() as int) =~= views);
        AppSettings { backend_url: url }
    }

    /// Applies the environment's override of the backend URL, trimmed, when
    /// the environment sets one.
    pub fn apply_env_override(&mut self, backend_url: Option<String>)
        ensures
            backend_url matches Some(u) ==> final(self).backend_url@ == trim(u@),
            backend_url is None ==> final(self).backend_url == old(self).backend_url,
    {
        if let Some(url) = backend_url {
            self.backend_url = trim_str(url.as_str());
        }
    }

    /// The URL of an endpoint of the backend: the backend URL followed by the path.
    pub fn endpoint(&self, path: &str) -> (u: String)
        ensures
            u@ == self.backend_url@ + path@,
    {
        crate::text::concat_str(self.backend_url.as_str(), path)
    }
}

} // verus!

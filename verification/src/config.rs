//! Server configuration: the worker count and the document root, parsed from
//! the text of the configuration file. Each line holds a name, one space, and
//! a value; later lines overwrite earlier ones; unknown names are ignored; a
//! `workers_num` value that is not a decimal number a machine word can hold
//! is an error.

use vstd::prelude::*;
use crate::text::{find_char_from, find_char, str_eq};
use vstd::string::{StrSliceExecFns, StringExecFns};

verus! {

/// The worker count used when the configuration names none.
pub const DEFAULT_THREAD_LIMIT: usize = 4;

/// The values the server starts from.
#[derive(Debug)]
pub struct Config {
    pub workers_num: usize,
    pub document_root: String,
}

/// The one configuration fault that is not an I/O fault: a `workers_num`
/// value that does not parse.
#[derive(Clone, Copy, PartialEq, Eq, Structural, Debug)]
pub enum ConfigError {
    BadWorkersNum,
}

/// `c` is a decimal digit.
pub open spec fn is_digit(c: char) -> bool {
    48 <= c as int <= 57
}

/// Every character of `s` is a decimal digit.
pub open spec fn all_digits(s: Seq<char>) -> bool {
    forall|i: int| 0 <= i < s.len() ==> is_digit(s[i])
}

/// The number the digit string names, most significant digit first.
pub open spec fn dec_value(s: Seq<char>) -> nat
    decreases s.len(),
{
    if s.len() == 0 {
        0
    } else {
        dec_value(s.drop_last()) * 10 + (s.last() as int - 48) as nat
    }
}

/// A digit string's value only grows as digits are appended.
proof fn lemma_dec_value_monotone(s: Seq<char>, i: int)
    requires
        0 <= i <= s.len(),
    ensures
        dec_value(s.take(i)) <= dec_value(s),
    decreases s.len() - i,
{
    if i == s.len() {
        assert(s.take(i) =~= s);
    } else {
        lemma_dec_value_monotone(s, i + 1);
        assert(s.take(i + 1).drop_last() =~= s.take(i));
        assert(s.take(i + 1).last() == s[i]);
    }
}

/// Parses a decimal number: the digit string's value exactly when the string
/// is nonempty, all digits, and the value fits a machine word.
pub fn parse_usize(s: &str) -> (r: Option<usize>)
    ensures
        r is Some <==> (s@.len() > 0 && all_digits(s@) && dec_value(s@) <= usize::MAX),
        r matches Some(v) ==> v as nat == dec_value(s@),
{
    let n = s.unicode_len();
    if n == 0 {
        return None;
    }
    let mut acc: usize = 0;
    let mut i: usize = 0;
    while i < n
        invariant
            n == s@.len(),
            0 <= i <= n,
            forall|j: int| 0 <= j < i ==> is_digit(s@[j]),
            acc as nat == dec_value(s@.take(i as int)),
        decreases n - i,
    {
        let c = s.get_char(i);
        let v = c as u32;
        if v < 48 || v > 57 {
            proof {
                assert(!is_digit(s@[i as int]));
            }
            return None;
        }
        let wide: u128 = acc as u128 * 10 + (v - 48) as u128;
        proof {
            assert(s@.take(i as int + 1).drop_last() =~= s@.take(i as int));
            assert(s@.take(i as int + 1).last() == s@[i as int]);
        }
        if wide > usize::MAX as u128 {
            proof {
                lemma_dec_value_monotone(s@, i as int + 1);
            }
            return None;
        }
        acc = wide as usize;
        i = i + 1;
    }
    proof {
        assert(s@.take(n as int) =~= s@);
    }
    Some(acc)
}

/// What parsing the configuration text yields, applied line by line to the
/// values so far: the final worker count and document root, or nothing when a
/// `workers_num` value does not parse.
pub open spec fn spec_parse_config(s: Seq<char>, w: nat, root: Seq<char>) -> Option<
    (nat, Seq<char>),
>
    decreases s.len(),
{
    if s.len() == 0 {
        Some((w, root))
    } else {
        let e = find_char_from(s, 0, '\n');
        let line = s.take(e);
        let rest = if 0 <= e && e < s.len() {
            s.skip(e + 1)
        } else {
            Seq::<char>::empty()
        };
        let sp = find_char_from(line, 0, ' ');
        if sp == line.len() {
            spec_parse_config(rest, w, root)
        } else {
            let name = line.take(sp);
            let value = line.skip(sp + 1);
            if name == "workers_num"@ {
                if value.len() > 0 && all_digits(value) && dec_value(value) <= usize::MAX {
                    spec_parse_config(rest, dec_value(value), root)
                } else {
                    Option::<(nat, Seq<char>)>::None
                }
            } else if name == "document_root"@ {
                spec_parse_config(rest, w, value)
            } else {
                spec_parse_config(rest, w, root)
            }
        }
    }
}

/// Applies the configuration lines in `text` to the values accumulated so
/// far.
fn parse_config_from(text: &str, w: usize, root: String) -> (r: Result<Config, ConfigError>)
    ensures
        spec_parse_config(text@, w as nat, root@) matches Some(c) ==> (r matches Ok(cfg)
            && cfg.workers_num as nat == c.0 && cfg.document_root@ == c.1),
        spec_parse_config(text@, w as nat, root@) is None ==> r is Err,
    decreases text@.len(),
{
    let n = text.unicode_len();
    if n == 0 {
        return Ok(Config { workers_num: w, document_root: root });
    }
    let e = find_char(text, '\n');
    let line = text.substring_char(0, e);
    proof {
        reveal_strlit("");
        assert(""@ =~= Seq::<char>::empty());
        assert(line@ =~= text@.take(e as int));
    }
    let rest = if e < n {
        let rr = text.substring_char(e + 1, n);
        proof {
            assert(rr@ =~= text@.skip(e as int + 1));
        }
        rr
    } else {
        ""
    };
    let ln = line.unicode_len();
    let sp = find_char(line, ' ');
    if sp == ln {
        return parse_config_from(rest, w, root);
    }
    let name = line.substring_char(0, sp);
    let value = line.substring_char(sp + 1, ln);
    proof {
        assert(name@ =~= line@.take(sp as int));
        assert(value@ =~= line@.skip(sp as int + 1));
    }
    if str_eq(name, "workers_num") {
        match parse_usize(value) {
            Some(v) => parse_config_from(rest, v, root),
            None => Err(ConfigError::BadWorkersNum),
        }
    } else if str_eq(name, "document_root") {
        parse_config_from(rest, w, String::from_str(value))
    } else {
        parse_config_from(rest, w, root)
    }
}

/// Parses the configuration file's text, starting from the defaults: an
/// empty document root and the default worker count.
pub fn parse_config(text: &str) -> (r: Result<Config, ConfigError>)
    ensures
        spec_parse_config(text@, DEFAULT_THREAD_LIMIT as nat, Seq::<char>::empty()) matches Some(c)
            ==> (r matches Ok(cfg) && cfg.workers_num as nat == c.0 && cfg.document_root@ == c.1),
        spec_parse_config(text@, DEFAULT_THREAD_LIMIT as nat, Seq::<char>::empty()) is None ==> r
            is Err,
{
    parse_config_from(text, DEFAULT_THREAD_LIMIT, String::new())
}

} // verus!

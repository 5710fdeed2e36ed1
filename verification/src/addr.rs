//! Parsing of the relay address `host:port[/path]`.

use vstd::prelude::*;
use vstd::string::StrSliceExecFns;

use crate::errors::Error;
use crate::outside::string_push;
use crate::textutil::{spec_parse_u16};

verus! {

/// The first index of `c` in `s`, or `s.len()` if it never occurs.
pub open spec fn spec_find_char(s: Seq<char>, c: char) -> int
    decreases s.len(),
{
    if s.len() == 0 {
        0
    } else if s[0] == c {
        0
    } else {
        1 + spec_find_char(s.skip(1), c)
    }
}

/// `spec_find_char` stays within bounds and is exact: nothing before it
/// matches, and it points at a match unless nothing matches at all.
pub proof fn lemma_find_char(s: Seq<char>, c: char)
    ensures
        0 <= spec_find_char(s, c) <= s.len(),
        forall|i: int| 0 <= i < spec_find_char(s, c) ==> s[i] != c,
        spec_find_char(s, c) < s.len() ==> s[spec_find_char(s, c)] == c,
    decreases s.len(),
{
    if s.len() > 0 && s[0] != c {
        lemma_find_char(s.skip(1), c);
        assert(forall|i: int| 0 <= i < s.skip(1).len() ==> s.skip(1)[i] == s[i + 1]);
        assert forall|i: int| 0 <= i < spec_find_char(s, c) implies s[i] != c by {
            if i > 0 {
                assert(s.skip(1)[i - 1] == s[i]);
                assert(s.skip(1)[i - 1] != c);
            }
        }
    }
}

/// Find the first occurrence of `c` in `s`, as an index, or the length.
pub fn find_char(s: &str, c: char) -> (r: usize)
    ensures
        r == spec_find_char(s@, c),
{
    proof {
        lemma_find_char(s@, c);
    }
    let n = s.unicode_len();
    let mut i: usize = 0;
    while i < n
        invariant
            i <= n,
            n == s@.len(),
            forall|j: int| 0 <= j < i ==> s@[j] != c,
            0 <= spec_find_char(s@, c) <= s@.len(),
            forall|j: int| 0 <= j < spec_find_char(s@, c) ==> s@[j] != c,
            spec_find_char(s@, c) < s@.len() ==> s@[spec_find_char(s@, c)] == c,
        decreases n - i,
    {
        if s.get_char(i) == c {
            proof {
                assert(s@[i as int] == c);
                assert(spec_find_char(s@, c) == i);
            }
            return i;
        }
        i = i + 1;
    }
    proof {
        assert(spec_find_char(s@, c) == n);
    }
    n
}

/// What `parse_server_addr` returns for `addr`: split off the path at the
/// first `/` (default `/`), then split host and port at a single `:`.
/// `None` where there is no colon, more than one, or the port does not
/// parse.
pub open spec fn spec_parse_server_addr(addr: Seq<char>) -> Option<(Seq<char>, u16, Seq<char>)> {
    let slash = spec_find_char(addr, '/');
    let addr_part = addr.take(slash);
    let path = if slash < addr.len() {
        addr.skip(slash)
    } else {
        seq!['/']
    };
    let colon = spec_find_char(addr_part, ':');
    if colon == addr_part.len() {
        None
    } else {
        let host = addr_part.take(colon);
        let port_part = addr_part.skip(colon + 1);
        if spec_find_char(port_part, ':') != port_part.len() {
            None
        } else {
            match spec_parse_u16(port_part) {
                Some(port) => Some((host, port, path)),
                None => None,
            }
        }
    }
}

/// Parse the relay address `host:port` or `host:port/path` into its three
/// parts; the path defaults to `/`. Fails with `Config` exactly where the
/// grammar does.
pub fn parse_server_addr(addr: &str) -> (r: Result<(String, u16, String), Error>)
    ensures
        (r is Ok <==> spec_parse_server_addr(addr@) is Some),
        r matches Ok(p) ==> Some((p.0@, p.1, p.2@)) == spec_parse_server_addr(addr@),
        r matches Err(e) ==> e == Error::Config,
{
    let n = addr.unicode_len();
    let slash = find_char(addr, '/');
    proof {
        lemma_find_char(addr@, '/');
    }
    let addr_part: &str = addr.substring_char(0, slash);
    proof {
        assert(addr_part@ =~= addr@.take(slash as int));
    }
    let path: String = if slash < n {
        let p = addr.substring_char(slash, n);
        proof {
            assert(p@ =~= addr@.skip(slash as int));
        }
        p.to_owned()
    } else {
        let mut p = String::new();
        string_push(&mut p, '/');
        proof {
            assert(p@ =~= seq!['/']);
        }
        p
    };
    let colon = find_char(addr_part, ':');
    proof {
        lemma_find_char(addr_part@, ':');
    }
    if colon == addr_part.unicode_len() {
        return Err(Error::Config);
    }
    let host: String = addr_part.substring_char(0, colon).to_owned();
    proof {
        assert(host@ =~= addr_part@.take(colon as int));
    }
    let port_part: &str = addr_part.substring_char(colon + 1, addr_part.unicode_len());
    proof {
        assert(port_part@ =~= addr_part@.skip(colon as int + 1));
    }
    if find_char(port_part, ':') != port_part.unicode_len() {
        return Err(Error::Config);
    }
    let mut port_chars: Vec<char> = Vec::new();
    let m = port_part.unicode_len();
    let mut i: usize = 0;
    while i < m
        invariant
            i <= m,
            m == port_part@.len(),
            port_chars@ == port_part@.take(i as int),
        decreases m - i,
    {
        port_chars.push(port_part.get_char(i));
        proof {
            assert(port_chars@ =~= port_part@.take(i + 1));
        }
        i = i + 1;
    }
    proof {
        assert(port_chars@ =~= port_part@);
    }
    match crate::textutil::parse_u16_chars(&port_chars) {
        Some(port) => Ok((host, port, path)),
        None => Err(Error::Config),
    }
}

} // verus!

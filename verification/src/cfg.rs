use vstd::prelude::*;
use vstd::string::StrSliceExecFns;

use crate::errors::RelayError;

verus! {

/// The two operating directions of the bridge.
#[derive(Clone, Copy, Debug, PartialEq, Eq, Structural)]
pub enum Mode {
    Agent,
    Forwarder,
}

/// Connection settings for the message bus.
#[derive(Debug)]
pub struct CfgNats {
    pub nats_url: Vec<String>,
    pub auth_enabled: bool,
    pub username: Option<String>,
    pub password: Option<String>,
    pub tls: bool,
}

/// Agent-side addressing: whether to redirect each group's traffic to a
/// unicast destination, and the per-group destination map. The map is held
/// as an association list from group address to destination string; the
/// first entry with a given key is the one that counts.
#[derive(Debug)]
pub struct CfgAgent {
    pub send_as_unicast: bool,
    pub unicast_addrs: Option<Vec<(String, String)>>,
}

/// One multicast group: its `ip:port` address and the logical name of the
/// source network interface (the latter matters in forwarder mode only).
#[derive(Debug)]
pub struct CfgMulticastGroup {
    pub multicast_addr: String,
    pub interface: String,
}

/// The whole configuration.
#[derive(Debug)]
pub struct Cfg {
    pub mode: Mode,
    pub nats: CfgNats,
    pub agent: CfgAgent,
    pub multicast_groups: Vec<CfgMulticastGroup>,
    pub max_packet_size: usize,
}

impl Clone for CfgMulticastGroup {
    /// The clone holds the same address and interface name.
    fn clone(&self) -> (r: Self)
        ensures
            r == *self,
    {
        CfgMulticastGroup {
            multicast_addr: self.multicast_addr.clone(),
            interface: self.interface.clone(),
        }
    }
}

impl Clone for CfgAgent {
    /// The clone holds the same flag and the same destination entries.
    fn clone(&self) -> (r: Self)
        ensures
            r.send_as_unicast == self.send_as_unicast,
            (match r.unicast_addrs {
                None => self.unicast_addrs is None,
                Some(a) => (match self.unicast_addrs {
                    None => false,
                    Some(b) => a@ == b@,
                }),
            }),
    {
        let unicast_addrs = match &self.unicast_addrs {
            None => None,
            Some(m) => {
                let mut out: Vec<(String, String)> = Vec::new();
                let mut i: usize = 0;
                while i < m.len()
                    invariant
                        i <= m.len(),
                        out@.len() == i as int,
                        forall|k: int| 0 <= k < i ==> out@[k] == m@[k],
                    decreases m.len() - i,
                {
                    out.push((m[i].0.clone(), m[i].1.clone()));
                    i += 1;
                }
                proof {
                    assert(out@ =~= m@);
                }
                Some(out)
            },
        };
        CfgAgent { send_as_unicast: self.send_as_unicast, unicast_addrs }
    }
}

/// Default receive-buffer bound, in bytes, used when the configuration
/// does not give one.
pub fn default_packet_size() -> (r: usize)
    ensures
        r == 1024,
{
    1024
}

/// The serialized forms a configuration file may take.
#[derive(Clone, Copy, Debug, PartialEq, Eq, Structural)]
pub enum CfgFormat {
    Json,
    Toml,
}

/// The index of the last occurrence of `c` in `s`, if any.
pub open spec fn rfind_char(s: Seq<char>, c: char) -> Option<int>
    decreases s.len(),
{
    if s.len() == 0 {
        None
    } else if s.last() == c {
        Some(s.len() - 1)
    } else {
        rfind_char(s.drop_last(), c)
    }
}

/// `rfind_char` names the last occurrence: the character stands there and
/// nowhere later, and a `None` means the character does not occur.
pub proof fn lemma_rfind_char(s: Seq<char>, c: char)
    ensures
        match rfind_char(s, c) {
            Some(i) => 0 <= i < s.len() && s[i] == c && (forall|j: int|
                i < j < s.len() ==> s[j] != c),
            None => forall|j: int| 0 <= j < s.len() ==> s[j] != c,
        },
    decreases s.len(),
{
    if s.len() > 0 && s.last() != c {
        lemma_rfind_char(s.drop_last(), c);
        assert(forall|j: int| 0 <= j < s.len() - 1 ==> s.drop_last()[j] == s[j]);
    }
}

/// The file-name portion of a path: what follows the last slash.
pub open spec fn spec_file_name(p: Seq<char>) -> Seq<char> {
    match rfind_char(p, '/') {
        None => p,
        Some(i) => p.skip(i + 1),
    }
}

/// The extension of a path: what follows the last dot of its file name,
/// provided that dot is not the file name's first character.
pub open spec fn spec_extension(p: Seq<char>) -> Option<Seq<char>> {
    let f = spec_file_name(p);
    match rfind_char(f, '.') {
        None => None,
        Some(i) => if i == 0 {
            None
        } else {
            Some(f.skip(i + 1))
        },
    }
}

/// The serialized form a configuration path names: `json` and `toml`
/// extensions are understood, anything else is a configuration error.
pub open spec fn spec_format_for_path(p: Seq<char>) -> Result<CfgFormat, RelayError> {
    match spec_extension(p) {
        None => Err(RelayError::ConfigurationError),
        Some(e) => if e == "json"@ {
            Ok(CfgFormat::Json)
        } else if e == "toml"@ {
            Ok(CfgFormat::Toml)
        } else {
            Err(RelayError::ConfigurationError)
        },
    }
}

/// Finds the last occurrence of `c` in `s` between `from` and `to`.
fn rscan_for(s: &str, from: usize, to: usize, c: char) -> (r: Option<usize>)
    requires
        from <= to <= s@.len(),
    ensures
        match rfind_char(s@.subrange(from as int, to as int), c) {
            Some(i) => 0 <= i && from + i < to && r == Some((from + i) as usize),
            None => r is None,
        },
{
    let ghost sub = s@.subrange(from as int, to as int);
    let mut j = to;
    while j > from
        invariant
            from <= j <= to <= s@.len(),
            sub == s@.subrange(from as int, to as int),
            forall|k: int| j <= k < to ==> s@[k] != c,
        decreases j,
    {
        j -= 1;
        if s.get_char(j) == c {
            proof {
                lemma_rfind_char(sub, c);
                assert(sub[j - from] == s@[j as int]);
                match rfind_char(sub, c) {
                    Some(i) => {
                        assert(sub[i] == s@[from + i]);
                        assert(i <= j - from);
                        assert(i >= j - from);
                    },
                    None => {
                        assert(false);
                    },
                }
            }
            return Some(j);
        }
    }
    proof {
        lemma_rfind_char(sub, c);
        match rfind_char(sub, c) {
            Some(i) => {
                assert(sub[i] == s@[from + i]);
                assert(false);
            },
            None => {},
        }
    }
    None
}

/// Compares the characters of `s` between `from` and `to` with `lit`.
fn window_eq(s: &str, from: usize, to: usize, lit: &str) -> (r: bool)
    requires
        from <= to <= s@.len(),
    ensures
        r == (s@.subrange(from as int, to as int) == lit@),
{
    let ghost sub = s@.subrange(from as int, to as int);
    let m = lit.unicode_len();
    if to - from != m {
        return false;
    }
    let mut j: usize = 0;
    while j < m
        invariant
            0 <= j <= m,
            from + m <= to <= s@.len(),
            to - from == m == lit@.len(),
            sub == s@.subrange(from as int, to as int),
            forall|k: int| 0 <= k < j ==> s@[from + k] == lit@[k],
        decreases m - j,
    {
        if s.get_char(from + j) != lit.get_char(j) {
            proof {
                assert(sub[j as int] == s@[from + j]);
                assert(sub != lit@);
            }
            return false;
        }
        j += 1;
    }
    proof {
        assert forall|k: int| 0 <= k < sub.len() implies sub[k] == lit@[k] by {
            assert(sub[k] == s@[from + k]);
        }
        assert(sub =~= lit@);
    }
    true
}

/// Decides the serialized form from the path's extension, exactly as
/// `spec_format_for_path` gives it; a path without a recognized extension
/// is a configuration error.
pub fn format_for_path(path: &str) -> (r: Result<CfgFormat, RelayError>)
    ensures
        r == spec_format_for_path(path@),
{
    let n = path.unicode_len();
    proof {
        assert(path@.subrange(0, path@.len() as int) =~= path@);
    }
    let fstart = match rscan_for(path, 0, n, '/') {
        None => 0,
        Some(i) => i + 1,
    };
    proof {
        assert(spec_file_name(path@) =~= path@.subrange(fstart as int, n as int));
    }
    let ghost f = spec_file_name(path@);
    let dot = match rscan_for(path, fstart, n, '.') {
        None => { return Err(RelayError::ConfigurationError); },
        Some(i) => i,
    };
    if dot == fstart {
        return Err(RelayError::ConfigurationError);
    }
    proof {
        assert(f.skip(dot - fstart + 1) =~= path@.subrange(dot + 1, n as int));
    }
    if window_eq(path, dot + 1, n, "json") {
        Ok(CfgFormat::Json)
    } else if window_eq(path, dot + 1, n, "toml") {
        Ok(CfgFormat::Toml)
    } else {
        Err(RelayError::ConfigurationError)
    }
}

} // verus!

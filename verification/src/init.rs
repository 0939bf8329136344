use vstd::prelude::*;
use vstd::string::StringExecFns;

use crate::cfg::CfgNats;
use crate::errors::RelayError;

verus! {

/// The url list joined with commas, the form the bus client takes its
/// server list in.
pub open spec fn spec_join_urls(urls: Seq<String>) -> Seq<char>
    decreases urls.len(),
{
    if urls.len() == 0 {
        Seq::empty()
    } else if urls.len() == 1 {
        urls[0]@
    } else {
        spec_join_urls(urls.drop_last()) + seq![','] + urls.last()@
    }
}

/// Joins the configured urls with commas.
pub fn join_urls(urls: &Vec<String>) -> (r: String)
    ensures
        r@ == spec_join_urls(urls@),
{
    let mut out = String::new();
    let mut i: usize = 0;
    while i < urls.len()
        invariant
            i <= urls.len(),
            out@ == spec_join_urls(urls@.take(i as int)),
        decreases urls.len() - i,
    {
        if i > 0 {
            out.append(",");
            proof {
                reveal_strlit(",");
            }
        }
        out.append(urls[i].as_str());
        i += 1;
        proof {
            let win = urls@.take(i as int);
            assert(win.drop_last() =~= urls@.take(i - 1));
            assert(win.last() == urls@[i - 1]);
        }
    }
    proof {
        assert(urls@.take(urls@.len() as int) =~= urls@);
    }
    out
}

/// Everything the bus connection needs, decided and validated before any
/// connection attempt: the joined server list, whether transport security
/// is required, and the credentials when authentication is on.
#[derive(Debug, PartialEq, Eq)]
pub struct NatsPlan {
    pub url: String,
    pub tls: bool,
    pub auth: Option<(String, String)>,
}

/// Validates the bus settings and lays out the connection. With
/// authentication on, a missing username or password is a configuration
/// error; otherwise the plan carries the joined urls, the security flag,
/// and the credentials exactly when authentication is on.
pub fn nats_plan(cfg: &CfgNats) -> (r: Result<NatsPlan, RelayError>)
    ensures
        (cfg.auth_enabled && (cfg.username is None || cfg.password is None)) <==> (r == Err::<
            NatsPlan,
            RelayError,
        >(RelayError::ConfigurationError)),
        (match r {
            Ok(plan) => {
                &&& plan.url@ == spec_join_urls(cfg.nats_url@)
                &&& plan.tls == cfg.tls
                &&& (match plan.auth {
                    Some(creds) => {
                        &&& cfg.auth_enabled
                        &&& (match cfg.username {
                            Some(u) => creds.0@ == u@,
                            None => false,
                        })
                        &&& (match cfg.password {
                            Some(p) => creds.1@ == p@,
                            None => false,
                        })
                    },
                    None => !cfg.auth_enabled,
                })
            },
            Err(e) => e == RelayError::ConfigurationError,
        }),
{
    let auth: Option<(String, String)>;
    if cfg.auth_enabled {
        let username = match &cfg.username {
            None => { return Err(RelayError::ConfigurationError); },
            Some(u) => u.clone(),
        };
        let password = match &cfg.password {
            None => { return Err(RelayError::ConfigurationError); },
            Some(p) => p.clone(),
        };
        auth = Some((username, password));
    } else {
        auth = None;
    }
    Ok(NatsPlan { url: join_urls(&cfg.nats_url), tls: cfg.tls, auth })
}

} // verus!

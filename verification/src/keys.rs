//! Two-tier selection of the process encryption key: an externally supplied
//! key of acceptable length wins; otherwise a key is derived from local user
//! and host identity.  The derived fallback is weak by design and meant for
//! development, not production.

use crate::store::KEY_MIN_LEN;
use vstd::prelude::*;

verus! {

/// `"eva_tm_"` as bytes: prefix of the derived key.
pub open spec fn spec_key_prefix() -> Seq<u8> {
    seq![101u8, 118u8, 97u8, 95u8, 116u8, 109u8, 95u8]
}

/// `"_secret"` as bytes: suffix of the derived key.
pub open spec fn spec_key_suffix() -> Seq<u8> {
    seq![95u8, 115u8, 101u8, 99u8, 114u8, 101u8, 116u8]
}

/// `"eva_user"` as bytes: stand-in when no user name is known.
pub open spec fn spec_default_user() -> Seq<u8> {
    seq![101u8, 118u8, 97u8, 95u8, 117u8, 115u8, 101u8, 114u8]
}

/// `"eva_host"` as bytes: stand-in when no host name is known.
pub open spec fn spec_default_host() -> Seq<u8> {
    seq![101u8, 118u8, 97u8, 95u8, 104u8, 111u8, 115u8, 116u8]
}

/// The machine-derived fallback key for a user and host name.
pub open spec fn spec_derived_key(user: Seq<u8>, host: Seq<u8>) -> Seq<u8> {
    spec_key_prefix() + user + seq![95u8] + host + spec_key_suffix()
}

/// The key the process runs under, given an optionally supplied key and the
/// optionally known user and host names: a supplied key of at least
/// `KEY_MIN_LEN` bytes, else the machine-derived fallback.
pub open spec fn spec_selected_key(
    supplied: Option<Seq<u8>>,
    user: Option<Seq<u8>>,
    host: Option<Seq<u8>>,
) -> Seq<u8> {
    if supplied matches Some(k) && k.len() >= KEY_MIN_LEN {
        supplied->0
    } else {
        spec_derived_key(
            if user is Some {
                user->0
            } else {
                spec_default_user()
            },
            if host is Some {
                host->0
            } else {
                spec_default_host()
            },
        )
    }
}

fn push_prefix(out: &mut Vec<u8>)
    ensures
        final(out)@ == old(out)@ + spec_key_prefix(),
{
    out.push(101);
    out.push(118);
    out.push(97);
    out.push(95);
    out.push(116);
    out.push(109);
    out.push(95);
    proof {
        assert(final(out)@ =~= old(out)@ + spec_key_prefix());
    }
}

fn push_suffix(out: &mut Vec<u8>)
    ensures
        final(out)@ == old(out)@ + spec_key_suffix(),
{
    out.push(95);
    out.push(115);
    out.push(101);
    out.push(99);
    out.push(114);
    out.push(101);
    out.push(116);
    proof {
        assert(final(out)@ =~= old(out)@ + spec_key_suffix());
    }
}

fn default_user() -> (r: Vec<u8>)
    ensures
        r@ == spec_default_user(),
{
    let mut r: Vec<u8> = Vec::new();
    r.push(101);
    r.push(118);
    r.push(97);
    r.push(95);
    r.push(117);
    r.push(115);
    r.push(101);
    r.push(114);
    proof {
        assert(r@ =~= spec_default_user());
    }
    r
}

fn default_host() -> (r: Vec<u8>)
    ensures
        r@ == spec_default_host(),
{
    let mut r: Vec<u8> = Vec::new();
    r.push(101);
    r.push(118);
    r.push(97);
    r.push(95);
    r.push(104);
    r.push(111);
    r.push(115);
    r.push(116);
    proof {
        assert(r@ =~= spec_default_host());
    }
    r
}

/// Select the process encryption key.
///
/// A supplied key of at least `KEY_MIN_LEN` bytes is used as it is; a
/// shorter or absent one falls back to the key derived from the user and
/// host names, with fixed stand-ins where those are unknown.
pub fn select_key(
    supplied: Option<Vec<u8>>,
    username: Option<Vec<u8>>,
    hostname: Option<Vec<u8>>,
) -> (r: Vec<u8>)
    ensures
        r@ == spec_selected_key(
            match supplied {
                Some(k) => Some(k@),
                None => None,
            },
            match username {
                Some(u) => Some(u@),
                None => None,
            },
            match hostname {
                Some(h) => Some(h@),
                None => None,
            },
        ),
{
    if let Some(k) = supplied {
        if k.len() >= KEY_MIN_LEN {
            return k;
        }
    }
    let user = match username {
        Some(u) => u,
        None => default_user(),
    };
    let host = match hostname {
        Some(h) => h,
        None => default_host(),
    };
    let mut out: Vec<u8> = Vec::new();
    push_prefix(&mut out);
    proof {
        assert(out@ =~= spec_key_prefix() + user@.subrange(0, 0));
    }
    let mut i: usize = 0;
    while i < user.len()
        invariant
            i <= user@.len(),
            out@ == spec_key_prefix() + user@.subrange(0, i as int),
        decreases user@.len() - i,
    {
        out.push(user[i]);
        proof {
            assert(out@ =~= spec_key_prefix() + user@.subrange(0, i + 1));
        }
        i = i + 1;
    }
    proof {
        assert(user@.subrange(0, user@.len() as int) =~= user@);
    }
    out.push(95);
    proof {
        assert(out@ =~= spec_key_prefix() + user@ + seq![95u8] + host@.subrange(0, 0));
    }
    let mut j: usize = 0;
    while j < host.len()
        invariant
            j <= host@.len(),
            out@ == spec_key_prefix() + user@ + seq![95u8] + host@.subrange(0, j as int),
        decreases host@.len() - j,
    {
        out.push(host[j]);
        proof {
            assert(out@ =~= spec_key_prefix() + user@ + seq![95u8] + host@.subrange(0, j + 1));
        }
        j = j + 1;
    }
    proof {
        assert(host@.subrange(0, host@.len() as int) =~= host@);
    }
    push_suffix(&mut out);
    proof {
        assert(out@ =~= spec_derived_key(user@, host@));
    }
    out
}

} // verus!

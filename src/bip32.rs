//! One step of private child key derivation over 78-byte encoded extended
//! keys, and the byte layout it relies on.
use vstd::prelude::*;
use crate::wallet::wipe;
use crate::keys::{
    compressed_pubkey, hash160, hash160_of, hmac_sha512, hmac_sha512_of, public_key_of,
    secret_tweak_add, tweak_add_of, tweak_add_ok, xkey_well_formed,
};

verus! {

/// Big-endian bytes of a child number; a hardened one has the top bit set.
pub open spec fn child_number_bytes(index: u32, hardened: bool) -> Seq<u8> {
    let v: int = if hardened {
        index + 0x8000_0000
    } else {
        index as int
    };
    seq![(v / 0x100_0000) as u8, ((v / 0x1_0000) % 256) as u8, ((v / 256) % 256) as u8, (v % 256) as u8]
}

/// The secret key in bytes 4 to 78 of an encoded extended key.
pub open spec fn body_key(b: Seq<u8>) -> Seq<u8> {
    b.subrange(42, 74)
}

/// The chain code in bytes 4 to 78 of an encoded extended key.
pub open spec fn body_chain(b: Seq<u8>) -> Seq<u8> {
    b.subrange(9, 41)
}

/// The HMAC-SHA512 output of one derivation step: keyed by the chain code,
/// over the zero-prefixed secret key (hardened) or the compressed public key
/// (normal), followed by the child number.
pub open spec fn ckd_hmac(b: Seq<u8>, index: u32, hardened: bool) -> Seq<u8> {
    let data = if hardened {
        seq![0u8] + body_key(b)
    } else {
        compressed_pubkey(body_key(b))
    };
    hmac_sha512_of(body_chain(b), data + child_number_bytes(index, hardened))
}

/// The step gives a valid child: the left half of the HMAC is a valid key
/// and its sum with the parent key is not zero.
pub open spec fn child_ok(b: Seq<u8>, index: u32, hardened: bool) -> bool {
    tweak_add_ok(ckd_hmac(b, index, hardened).take(32), body_key(b))
}

/// Bytes 4 to 78 of the child's encoding: depth plus one, the parent's
/// fingerprint, the child number, the right half of the HMAC as chain code,
/// a zero byte, and the tweaked key.
pub open spec fn bip32_child(b: Seq<u8>, index: u32, hardened: bool) -> Seq<u8> {
    let i = ckd_hmac(b, index, hardened);
    seq![(b[0] + 1) as u8] + hash160_of(compressed_pubkey(body_key(b))).take(4)
        + child_number_bytes(index, hardened) + i.skip(32) + seq![0u8] + tweak_add_of(
        i.take(32),
        body_key(b),
    )
}

fn copy_range(v: &Vec<u8>, lo: usize, hi: usize) -> (r: Vec<u8>)
    requires
        lo <= hi <= v@.len(),
    ensures
        r@ == v@.subrange(lo as int, hi as int),
{
    let mut out: Vec<u8> = Vec::new();
    let mut i: usize = lo;
    while i < hi
        invariant
            lo <= i <= hi <= v@.len(),
            out@ == v@.subrange(lo as int, i as int),
        decreases hi - i,
    {
        out.push(v[i]);
        proof {
            assert(out@ =~= v@.subrange(lo as int, i + 1));
        }
        i = i + 1;
    }
    out
}

fn append_all(out: &mut Vec<u8>, v: &Vec<u8>)
    ensures
        final(out)@ == old(out)@ + v@,
{
    let mut i: usize = 0;
    while i < v.len()
        invariant
            i <= v@.len(),
            out@ == old(out)@ + v@.take(i as int),
        decreases v@.len() - i,
    {
        out.push(v[i]);
        proof {
            assert(old(out)@ + v@.take(i + 1) =~= out@);
        }
        i = i + 1;
    }
    proof {
        assert(v@.take(v@.len() as int) =~= v@);
    }
}

/// Derives the private child at `index` of an encoded extended key; an
/// invalid child key is reported, not hidden.
pub fn child_xkey(parent: &Vec<u8>, index: u32, hardened: bool) -> (r: Result<Vec<u8>, ()>)
    requires
        xkey_well_formed(parent@),
        parent@[4] < 255,
        index < 0x8000_0000,
    ensures
        r is Ok <==> child_ok(parent@.skip(4), index, hardened),
        r matches Ok(k) ==> k@.take(4) == parent@.take(4) && k@[4] == parent@[4] + 1,
        r matches Ok(k) ==> k@.skip(4) == bip32_child(parent@.skip(4), index, hardened),
        r matches Ok(k) ==> xkey_well_formed(k@),
{
    let ghost b = parent@.skip(4);
    let mut key = copy_range(parent, 46, 78);
    let chain = copy_range(parent, 13, 45);
    proof {
        assert(key@ =~= body_key(b));
        assert(chain@ =~= body_chain(b));
    }
    let pubkey = match public_key_of(&key) {
        Ok(p) => p,
        Err(_) => {
            return Err(());
        },
    };
    let v: u32 = if hardened {
        index + 0x8000_0000
    } else {
        index
    };
    let mut number: Vec<u8> = Vec::new();
    number.push((v / 0x100_0000) as u8);
    number.push(((v / 0x1_0000) % 256) as u8);
    number.push(((v / 256) % 256) as u8);
    number.push((v % 256) as u8);
    proof {
        assert(number@ =~= child_number_bytes(index, hardened));
    }
    let mut data: Vec<u8> = Vec::new();
    if hardened {
        data.push(0);
        append_all(&mut data, &key);
    } else {
        append_all(&mut data, &pubkey);
    }
    append_all(&mut data, &number);
    proof {
        if hardened {
            assert(data@ =~= seq![0u8] + body_key(b) + child_number_bytes(index, hardened));
        } else {
            assert(data@ =~= compressed_pubkey(body_key(b)) + child_number_bytes(index, hardened));
        }
    }
    let mut i = hmac_sha512(&chain, &data);
    wipe(&mut data);
    let mut left = copy_range(&i, 0, 32);
    let right = copy_range(&i, 32, 64);
    proof {
        assert(left@ =~= i@.take(32));
        assert(right@ =~= i@.skip(32));
    }
    let tweaked = secret_tweak_add(&left, &key);
    wipe(&mut key);
    wipe(&mut left);
    wipe(&mut i);
    let mut child_key = match tweaked {
        Ok(k) => k,
        Err(_) => {
            return Err(());
        },
    };
    let fingerprint = hash160(&pubkey);
    let mut out = copy_range(parent, 0, 4);
    out.push(parent[4] + 1);
    let fp = copy_range(&fingerprint, 0, 4);
    append_all(&mut out, &fp);
    append_all(&mut out, &number);
    append_all(&mut out, &right);
    out.push(0);
    append_all(&mut out, &child_key);
    let ghost child = child_key@;
    wipe(&mut child_key);
    proof {
        assert(fp@ =~= hash160_of(compressed_pubkey(body_key(b))).take(4));
        assert(out@.take(4) =~= parent@.take(4));
        assert(out@.skip(4) =~= bip32_child(b, index, hardened));
        assert(out@.subrange(46, 78) =~= child);
        assert(out@.len() == 78);
    }
    Ok(out)
}

} // verus!

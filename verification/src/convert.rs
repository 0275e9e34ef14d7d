use vstd::arithmetic::div_mod::{
    lemma_basic_div, lemma_div_plus_one, lemma_fundamental_div_mod_converse,
};
use vstd::prelude::*;

verus! {

/// Number of frames, `ceil(n / cc)`, in `n` interleaved samples over `cc`
/// channels.
pub open spec fn frame_count(n: int, cc: int) -> int
    recommends
        cc >= 1,
{
    (n + cc - 1) / cc
}

/// The unsigned reading of a signed 16-bit sample's two's-complement bits.
pub open spec fn sample_bits(x: i16) -> int {
    if x >= 0 {
        x as int
    } else {
        x as int + 0x10000
    }
}

/// Low byte of a sample's little-endian encoding.
pub open spec fn lo_byte(x: i16) -> u8 {
    (sample_bits(x) % 0x100) as u8
}

/// High byte of a sample's little-endian encoding.
pub open spec fn hi_byte(x: i16) -> u8 {
    (sample_bits(x) / 0x100) as u8
}

/// Little-endian encoding of one 16-bit sample.
pub open spec fn le_bytes(x: i16) -> Seq<u8> {
    seq![lo_byte(x), hi_byte(x)]
}

/// First-channel samples of an interleaved buffer: every `cc`-th sample,
/// starting at the first. Other channels of each frame are discarded, not
/// averaged.
pub open spec fn downmix(s: Seq<i16>, cc: int) -> Seq<i16>
    recommends
        cc >= 1,
    decreases s.len(),
        when cc >= 1
{
    if s.len() == 0 {
        Seq::empty()
    } else if s.len() <= cc {
        seq![s[0]]
    } else {
        seq![s[0]] + downmix(s.skip(cc), cc)
    }
}

/// Little-endian 16-bit serialization of a sample sequence.
pub open spec fn pcm_bytes(s: Seq<i16>) -> Seq<u8>
    decreases s.len(),
{
    if s.len() == 0 {
        Seq::empty()
    } else {
        le_bytes(s[0]) + pcm_bytes(s.skip(1))
    }
}

/// `downmix` selects exactly one sample per frame.
pub proof fn lemma_downmix_len(s: Seq<i16>, cc: int)
    requires
        cc >= 1,
    ensures
        downmix(s, cc).len() == frame_count(s.len() as int, cc),
    decreases s.len(),
{
    let n = s.len() as int;
    if s.len() == 0 {
        lemma_basic_div(cc - 1, cc);
    } else if s.len() <= cc {
        lemma_fundamental_div_mod_converse(n + cc - 1, cc, 1, n - 1);
    } else {
        lemma_downmix_len(s.skip(cc), cc);
        lemma_div_plus_one(n - 1, cc);
    }
}

/// Serialization yields two bytes per sample.
pub proof fn lemma_pcm_bytes_len(s: Seq<i16>)
    ensures
        pcm_bytes(s).len() == 2 * s.len(),
    decreases s.len(),
{
    if s.len() > 0 {
        lemma_pcm_bytes_len(s.skip(1));
    }
}

proof fn lemma_pcm_cons(x: i16, r: Seq<i16>)
    ensures
        pcm_bytes(seq![x] + r) == le_bytes(x) + pcm_bytes(r),
{
    let q = seq![x] + r;
    assert(q[0] == x);
    assert(q.skip(1) =~= r);
}

proof fn lemma_pcm_single(x: i16)
    ensures
        pcm_bytes(seq![x]) == le_bytes(x),
{
    let q = seq![x];
    assert(q[0] == x);
    assert(q.skip(1) =~= Seq::<i16>::empty());
    assert(pcm_bytes(q) == le_bytes(x) + pcm_bytes(Seq::<i16>::empty()));
    assert(le_bytes(x) + Seq::<u8>::empty() =~= le_bytes(x));
}

/// Append one sample's little-endian encoding to `out`.
fn push_sample_le(out: &mut Vec<u8>, x: i16)
    ensures
        final(out)@ == old(out)@ + le_bytes(x),
{
    let bits: u16 = if x >= 0 {
        x as u16
    } else {
        ((x as i32) + 0x10000) as u16
    };
    proof {
        assert(bits as int == sample_bits(x));
    }
    out.push((bits % 0x100) as u8);
    out.push((bits / 0x100) as u8);
    proof {
        assert(old(out)@ + le_bytes(x) =~= old(out)@.push(lo_byte(x)).push(hi_byte(x)));
    }
}

/// Convert one native callback buffer, already read as interleaved signed
/// 16-bit samples, to the canonical capture format: keep the first channel
/// of each frame and serialize each kept sample as little-endian bytes.
///
/// For every buffer and every `channel_count >= 1`, the output holds
/// exactly `ceil(len / channel_count) * 2` bytes.
pub fn convert(samples: &[i16], channel_count: usize) -> (out: Vec<u8>)
    requires
        channel_count >= 1,
    ensures
        out@ == pcm_bytes(downmix(samples@, channel_count as int)),
        out@.len() == 2 * frame_count(samples@.len() as int, channel_count as int),
{
    let ghost s = samples@;
    let ghost cc = channel_count as int;
    let ghost goal = pcm_bytes(downmix(s, cc));
    let n = samples.len();
    let mut out: Vec<u8> = Vec::new();
    let mut i: usize = 0;
    proof {
        assert(s.skip(0) =~= s);
    }
    while i < n
        invariant
            1 <= channel_count,
            cc == channel_count as int,
            s == samples@,
            n == s.len(),
            i <= n,
            goal == pcm_bytes(downmix(s, cc)),
            out@ + pcm_bytes(downmix(s.skip(i as int), cc)) == goal,
        decreases n - i,
    {
        let ghost rem = s.skip(i as int);
        let ghost prev = out@;
        let x = samples[i];
        push_sample_le(&mut out, x);
        proof {
            assert(rem[0] == s[i as int]);
        }
        if n - i <= channel_count {
            proof {
                assert(downmix(rem, cc) == seq![rem[0]]);
                lemma_pcm_single(rem[0]);
                assert(s.skip(n as int) =~= Seq::<i16>::empty());
                assert(out@ + pcm_bytes(downmix(s.skip(n as int), cc)) =~= out@);
                assert(out@ == prev + le_bytes(rem[0]));
                assert(out@ == goal);
            }
            i = n;
        } else {
            proof {
                assert(downmix(rem, cc) == seq![rem[0]] + downmix(rem.skip(cc), cc));
                assert(rem.skip(cc) =~= s.skip(i + cc));
                lemma_pcm_cons(rem[0], downmix(s.skip(i + cc), cc));
                assert((prev + le_bytes(rem[0])) + pcm_bytes(downmix(s.skip(i + cc), cc)) =~= prev
                    + (le_bytes(rem[0]) + pcm_bytes(downmix(s.skip(i + cc), cc))));
            }
            i = i + channel_count;
        }
    }
    proof {
        assert(s.skip(n as int) =~= Seq::<i16>::empty());
        assert(out@ + pcm_bytes(downmix(s.skip(n as int), cc)) =~= out@);
        lemma_downmix_len(s, cc);
        lemma_pcm_bytes_len(downmix(s, cc));
    }
    out
}

} // verus!

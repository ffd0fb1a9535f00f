use vstd::prelude::*;
use crate::hashing::{cls4, spec_cls4};
use crate::model::Cm;

verus! {

/// A follow-history word with `byte` shifted in as the most recent byte.
pub open spec fn shift_in(v: u32, byte: u8) -> u32 {
    (v << 8u32) | (byte as u32)
}

/// A follow-history table with `byte` recorded under `key`.
pub open spec fn recorded(t: Seq<u32>, key: int, byte: u8) -> Seq<u32> {
    t.update(key, shift_in(t[key], byte))
}

pub(crate) fn record(t: &mut Vec<u32>, key: usize, byte: u8)
    requires
        key < old(t)@.len(),
    ensures
        final(t)@ == recorded(old(t)@, key as int, byte),
{
    let v = t[key];
    t.set(key, (v << 8) | (byte as u32));
}

impl Cm {
    /// Records that `byte` followed each of the indirect contexts that
    /// preceded it.
    pub(crate) fn record_follow(&mut self, byte: u8)
        requires
            old(self).wf(),
        ensures
            final(self).wf(),
            final(self).follow1@ == recorded(old(self).follow1@, (old(self).c4 & 0xff) as int, byte),
            final(self).follow2@ == recorded(old(self).follow2@, (old(self).c4 & 0xffff) as int, byte),
            final(self).follow3@ == recorded(old(self).follow3@, old(self).key3(), byte),
            final(self).follow4@ == recorded(old(self).follow4@, old(self).key4(), byte),
            final(self).follow5@ == if old(self).pos >= 5 {
                recorded(old(self).follow5@, (old(self).m5() >> 9u32) as int, byte)
            } else {
                old(self).follow5@
            },
            final(self).follow6@ == if old(self).pos >= 6 {
                recorded(old(self).follow6@, (old(self).m6() >> 9u32) as int, byte)
            } else {
                old(self).follow6@
            },
            final(self).followhn@ == recorded(old(self).followhn@, (old(self).hnm() >> 9u32) as int, byte),
            final(self).followd@ == recorded(old(self).followd@, (old(self).dm() >> 9u32) as int, byte),
            final(self).followc@ == recorded(old(self).followc@, spec_cls4(old(self).c4), byte),
            final(self).followln@ == recorded(old(self).followln@, (old(self).lnm() >> 9u32) as int, byte),
            final(self).followg@ == recorded(old(self).followg@, old(self).gap_key(3), byte),
            final(self).follows2@ == recorded(old(self).follows2@, old(self).pair_key(2, 4, 4), byte),
            final(self).follows3@ == recorded(old(self).follows3@, old(self).pair_key(3, 6, 6), byte),
            final(self).followg2@ == recorded(old(self).followg2@, old(self).gap_key(5), byte),
            final(self).followhn8@ == recorded(old(self).followhn8@, (old(self).hn8() >> 9u32) as int, byte),
            final(self).follows4@ == recorded(old(self).follows4@, old(self).pair_key(4, 8, 8), byte),
            final(self).followln8@ == recorded(old(self).followln8@, (old(self).ln8() >> 9u32) as int, byte),
            final(self).followg14@ == recorded(old(self).followg14@, old(self).gap_key(4), byte),
            final(self).followcc8@ == recorded(old(self).followcc8@, old(self).cc8(), byte),
            final(self).follows5@ == recorded(old(self).follows5@, old(self).pair_key(5, 10, 10), byte),
            final(self).followg16@ == recorded(old(self).followg16@, old(self).gap_key(6), byte),
            *final(self) == (Cm {
                follow1: final(self).follow1,
                follow2: final(self).follow2,
                follow3: final(self).follow3,
                follow4: final(self).follow4,
                follow5: final(self).follow5,
                follow6: final(self).follow6,
                followhn: final(self).followhn,
                followd: final(self).followd,
                followc: final(self).followc,
                followln: final(self).followln,
                followg: final(self).followg,
                follows2: final(self).follows2,
                follows3: final(self).follows3,
                followg2: final(self).followg2,
                followhn8: final(self).followhn8,
                follows4: final(self).follows4,
                followln8: final(self).followln8,
                followg14: final(self).followg14,
                followcc8: final(self).followcc8,
                follows5: final(self).follows5,
                followg16: final(self).followg16,
                ..*old(self)
            }),
    {
        let c4 = self.c4;
        proof {
            crate::bits::lemma_mask_bounds();
        }
        let k1 = (c4 & 0xff) as usize;
        let k2 = (c4 & 0xffff) as usize;
        let k3 = self.key_f3();
        let k4 = self.key_f4();
        let k5 = if self.pos >= 5 {
            Self::shr9(self.spec_m5_exec())
        } else {
            0
        };
        let k6 = if self.pos >= 6 {
            Self::shr9(self.spec_m6_exec())
        } else {
            0
        };
        let khn = Self::shr9(self.hnm_exec());
        let kd = Self::shr9(self.dpat_exec().wrapping_mul(0x85eb_ca6b));
        let kc = cls4(c4) as usize;
        let kln = Self::shr9(self.lnm_exec());
        let kg = self.gap_key_exec(3);
        let ks2 = self.pair_key_exec(2, 4, 4);
        let ks3 = self.pair_key_exec(3, 6, 6);
        let kg2 = self.gap_key_exec(5);
        let khn8 = Self::shr9(self.hn8_exec());
        let ks4 = self.pair_key_exec(4, 8, 8);
        let kln8 = Self::shr9(self.ln8_exec());
        let kg14 = self.gap_key_exec(4);
        let kcc8 = self.cc8_exec();
        let ks5 = self.pair_key_exec(5, 10, 10);
        let kg16 = self.gap_key_exec(6);
        record(&mut self.follow1, k1, byte);
        record(&mut self.follow2, k2, byte);
        record(&mut self.follow3, k3, byte);
        record(&mut self.follow4, k4, byte);
        if self.pos >= 5 {
            record(&mut self.follow5, k5, byte);
        }
        if self.pos >= 6 {
            record(&mut self.follow6, k6, byte);
        }
        record(&mut self.followhn, khn, byte);
        record(&mut self.followd, kd, byte);
        record(&mut self.followc, kc, byte);
        record(&mut self.followln, kln, byte);
        record(&mut self.followg, kg, byte);
        record(&mut self.follows2, ks2, byte);
        record(&mut self.follows3, ks3, byte);
        record(&mut self.followg2, kg2, byte);
        record(&mut self.followhn8, khn8, byte);
        record(&mut self.follows4, ks4, byte);
        record(&mut self.followln8, kln8, byte);
        record(&mut self.followg14, kg14, byte);
        record(&mut self.followcc8, kcc8, byte);
        record(&mut self.follows5, ks5, byte);
        record(&mut self.followg16, kg16, byte);
    }
}

} // verus!

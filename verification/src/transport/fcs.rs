// SPDX-License-Identifier: GPL-3.0-or-later
//! The 16-bit frame check sequence of PPP in HDLC-like framing.

use vstd::prelude::*;

verus! {

/// The contribution of each byte value to the running check sequence.
pub const FCS_TAB: [u16; 256] = [
    0x0000, 0x1189, 0x2312, 0x329b, 0x4624, 0x57ad, 0x6536, 0x74bf, 0x8c48, 0x9dc1, 0xaf5a, 0xbed3,
    0xca6c, 0xdbe5, 0xe97e, 0xf8f7, 0x1081, 0x0108, 0x3393, 0x221a, 0x56a5, 0x472c, 0x75b7, 0x643e,
    0x9cc9, 0x8d40, 0xbfdb, 0xae52, 0xdaed, 0xcb64, 0xf9ff, 0xe876, 0x2102, 0x308b, 0x0210, 0x1399,
    0x6726, 0x76af, 0x4434, 0x55bd, 0xad4a, 0xbcc3, 0x8e58, 0x9fd1, 0xeb6e, 0xfae7, 0xc87c, 0xd9f5,
    0x3183, 0x200a, 0x1291, 0x0318, 0x77a7, 0x662e, 0x54b5, 0x453c, 0xbdcb, 0xac42, 0x9ed9, 0x8f50,
    0xfbef, 0xea66, 0xd8fd, 0xc974, 0x4204, 0x538d, 0x6116, 0x709f, 0x0420, 0x15a9, 0x2732, 0x36bb,
    0xce4c, 0xdfc5, 0xed5e, 0xfcd7, 0x8868, 0x99e1, 0xab7a, 0xbaf3, 0x5285, 0x430c, 0x7197, 0x601e,
    0x14a1, 0x0528, 0x37b3, 0x263a, 0xdecd, 0xcf44, 0xfddf, 0xec56, 0x98e9, 0x8960, 0xbbfb, 0xaa72,
    0x6306, 0x728f, 0x4014, 0x519d, 0x2522, 0x34ab, 0x0630, 0x17b9, 0xef4e, 0xfec7, 0xcc5c, 0xddd5,
    0xa96a, 0xb8e3, 0x8a78, 0x9bf1, 0x7387, 0x620e, 0x5095, 0x411c, 0x35a3, 0x242a, 0x16b1, 0x0738,
    0xffcf, 0xee46, 0xdcdd, 0xcd54, 0xb9eb, 0xa862, 0x9af9, 0x8b70, 0x8408, 0x9581, 0xa71a, 0xb693,
    0xc22c, 0xd3a5, 0xe13e, 0xf0b7, 0x0840, 0x19c9, 0x2b52, 0x3adb, 0x4e64, 0x5fed, 0x6d76, 0x7cff,
    0x9489, 0x8500, 0xb79b, 0xa612, 0xd2ad, 0xc324, 0xf1bf, 0xe036, 0x18c1, 0x0948, 0x3bd3, 0x2a5a,
    0x5ee5, 0x4f6c, 0x7df7, 0x6c7e, 0xa50a, 0xb483, 0x8618, 0x9791, 0xe32e, 0xf2a7, 0xc03c, 0xd1b5,
    0x2942, 0x38cb, 0x0a50, 0x1bd9, 0x6f66, 0x7eef, 0x4c74, 0x5dfd, 0xb58b, 0xa402, 0x9699, 0x8710,
    0xf3af, 0xe226, 0xd0bd, 0xc134, 0x39c3, 0x284a, 0x1ad1, 0x0b58, 0x7fe7, 0x6e6e, 0x5cf5, 0x4d7c,
    0xc60c, 0xd785, 0xe51e, 0xf497, 0x8028, 0x91a1, 0xa33a, 0xb2b3, 0x4a44, 0x5bcd, 0x6956, 0x78df,
    0x0c60, 0x1de9, 0x2f72, 0x3efb, 0xd68d, 0xc704, 0xf59f, 0xe416, 0x90a9, 0x8120, 0xb3bb, 0xa232,
    0x5ac5, 0x4b4c, 0x79d7, 0x685e, 0x1ce1, 0x0d68, 0x3ff3, 0x2e7a, 0xe70e, 0xf687, 0xc41c, 0xd595,
    0xa12a, 0xb0a3, 0x8238, 0x93b1, 0x6b46, 0x7acf, 0x4854, 0x59dd, 0x2d62, 0x3ceb, 0x0e70, 0x1ff9,
    0xf78f, 0xe606, 0xd49d, 0xc514, 0xb1ab, 0xa022, 0x92b9, 0x8330, 0x7bc7, 0x6a4e, 0x58d5, 0x495c,
    0x3de3, 0x2c6a, 0x1ef1, 0x0f78,
];

/// One bit of the division by the generator polynomial, low bit first.
pub open spec fn fcs_bit(x: u16) -> u16 {
    if x & 1 == 1 {
        (x >> 1) ^ 0x8408
    } else {
        x >> 1
    }
}

/// Eight bits of that division.
#[verifier::opaque]
pub open spec fn fcs_byte(x: u16) -> u16 {
    fcs_bit(fcs_bit(fcs_bit(fcs_bit(fcs_bit(fcs_bit(fcs_bit(fcs_bit(x))))))))
}

/// One step of the check sequence: fold `byte` into `sum`.
pub open spec fn fcs_step(sum: u16, byte: u8) -> u16 {
    fcs_byte(sum ^ (byte as u16))
}

/// The 256 remainders that make up [`FCS_TAB`].
proof fn lemma_values()
    by (bit_vector)
    ensures
        fcs_byte(0) == 0x0000 && fcs_byte(1) == 0x1189 && fcs_byte(2) == 0x2312 && fcs_byte(3) == 0x329b,
        fcs_byte(4) == 0x4624 && fcs_byte(5) == 0x57ad && fcs_byte(6) == 0x6536 && fcs_byte(7) == 0x74bf,
        fcs_byte(8) == 0x8c48 && fcs_byte(9) == 0x9dc1 && fcs_byte(10) == 0xaf5a && fcs_byte(11) == 0xbed3,
        fcs_byte(12) == 0xca6c && fcs_byte(13) == 0xdbe5 && fcs_byte(14) == 0xe97e && fcs_byte(15) == 0xf8f7,
        fcs_byte(16) == 0x1081 && fcs_byte(17) == 0x0108 && fcs_byte(18) == 0x3393 && fcs_byte(19) == 0x221a,
        fcs_byte(20) == 0x56a5 && fcs_byte(21) == 0x472c && fcs_byte(22) == 0x75b7 && fcs_byte(23) == 0x643e,
        fcs_byte(24) == 0x9cc9 && fcs_byte(25) == 0x8d40 && fcs_byte(26) == 0xbfdb && fcs_byte(27) == 0xae52,
        fcs_byte(28) == 0xdaed && fcs_byte(29) == 0xcb64 && fcs_byte(30) == 0xf9ff && fcs_byte(31) == 0xe876,
        fcs_byte(32) == 0x2102 && fcs_byte(33) == 0x308b && fcs_byte(34) == 0x0210 && fcs_byte(35) == 0x1399,
        fcs_byte(36) == 0x6726 && fcs_byte(37) == 0x76af && fcs_byte(38) == 0x4434 && fcs_byte(39) == 0x55bd,
        fcs_byte(40) == 0xad4a && fcs_byte(41) == 0xbcc3 && fcs_byte(42) == 0x8e58 && fcs_byte(43) == 0x9fd1,
        fcs_byte(44) == 0xeb6e && fcs_byte(45) == 0xfae7 && fcs_byte(46) == 0xc87c && fcs_byte(47) == 0xd9f5,
        fcs_byte(48) == 0x3183 && fcs_byte(49) == 0x200a && fcs_byte(50) == 0x1291 && fcs_byte(51) == 0x0318,
        fcs_byte(52) == 0x77a7 && fcs_byte(53) == 0x662e && fcs_byte(54) == 0x54b5 && fcs_byte(55) == 0x453c,
        fcs_byte(56) == 0xbdcb && fcs_byte(57) == 0xac42 && fcs_byte(58) == 0x9ed9 && fcs_byte(59) == 0x8f50,
        fcs_byte(60) == 0xfbef && fcs_byte(61) == 0xea66 && fcs_byte(62) == 0xd8fd && fcs_byte(63) == 0xc974,
        fcs_byte(64) == 0x4204 && fcs_byte(65) == 0x538d && fcs_byte(66) == 0x6116 && fcs_byte(67) == 0x709f,
        fcs_byte(68) == 0x0420 && fcs_byte(69) == 0x15a9 && fcs_byte(70) == 0x2732 && fcs_byte(71) == 0x36bb,
        fcs_byte(72) == 0xce4c && fcs_byte(73) == 0xdfc5 && fcs_byte(74) == 0xed5e && fcs_byte(75) == 0xfcd7,
        fcs_byte(76) == 0x8868 && fcs_byte(77) == 0x99e1 && fcs_byte(78) == 0xab7a && fcs_byte(79) == 0xbaf3,
        fcs_byte(80) == 0x5285 && fcs_byte(81) == 0x430c && fcs_byte(82) == 0x7197 && fcs_byte(83) == 0x601e,
        fcs_byte(84) == 0x14a1 && fcs_byte(85) == 0x0528 && fcs_byte(86) == 0x37b3 && fcs_byte(87) == 0x263a,
        fcs_byte(88) == 0xdecd && fcs_byte(89) == 0xcf44 && fcs_byte(90) == 0xfddf && fcs_byte(91) == 0xec56,
        fcs_byte(92) == 0x98e9 && fcs_byte(93) == 0x8960 && fcs_byte(94) == 0xbbfb && fcs_byte(95) == 0xaa72,
        fcs_byte(96) == 0x6306 && fcs_byte(97) == 0x728f && fcs_byte(98) == 0x4014 && fcs_byte(99) == 0x519d,
        fcs_byte(100) == 0x2522 && fcs_byte(101) == 0x34ab && fcs_byte(102) == 0x0630 && fcs_byte(103) == 0x17b9,
        fcs_byte(104) == 0xef4e && fcs_byte(105) == 0xfec7 && fcs_byte(106) == 0xcc5c && fcs_byte(107) == 0xddd5,
        fcs_byte(108) == 0xa96a && fcs_byte(109) == 0xb8e3 && fcs_byte(110) == 0x8a78 && fcs_byte(111) == 0x9bf1,
        fcs_byte(112) == 0x7387 && fcs_byte(113) == 0x620e && fcs_byte(114) == 0x5095 && fcs_byte(115) == 0x411c,
        fcs_byte(116) == 0x35a3 && fcs_byte(117) == 0x242a && fcs_byte(118) == 0x16b1 && fcs_byte(119) == 0x0738,
        fcs_byte(120) == 0xffcf && fcs_byte(121) == 0xee46 && fcs_byte(122) == 0xdcdd && fcs_byte(123) == 0xcd54,
        fcs_byte(124) == 0xb9eb && fcs_byte(125) == 0xa862 && fcs_byte(126) == 0x9af9 && fcs_byte(127) == 0x8b70,
        fcs_byte(128) == 0x8408 && fcs_byte(129) == 0x9581 && fcs_byte(130) == 0xa71a && fcs_byte(131) == 0xb693,
        fcs_byte(132) == 0xc22c && fcs_byte(133) == 0xd3a5 && fcs_byte(134) == 0xe13e && fcs_byte(135) == 0xf0b7,
        fcs_byte(136) == 0x0840 && fcs_byte(137) == 0x19c9 && fcs_byte(138) == 0x2b52 && fcs_byte(139) == 0x3adb,
        fcs_byte(140) == 0x4e64 && fcs_byte(141) == 0x5fed && fcs_byte(142) == 0x6d76 && fcs_byte(143) == 0x7cff,
        fcs_byte(144) == 0x9489 && fcs_byte(145) == 0x8500 && fcs_byte(146) == 0xb79b && fcs_byte(147) == 0xa612,
        fcs_byte(148) == 0xd2ad && fcs_byte(149) == 0xc324 && fcs_byte(150) == 0xf1bf && fcs_byte(151) == 0xe036,
        fcs_byte(152) == 0x18c1 && fcs_byte(153) == 0x0948 && fcs_byte(154) == 0x3bd3 && fcs_byte(155) == 0x2a5a,
        fcs_byte(156) == 0x5ee5 && fcs_byte(157) == 0x4f6c && fcs_byte(158) == 0x7df7 && fcs_byte(159) == 0x6c7e,
        fcs_byte(160) == 0xa50a && fcs_byte(161) == 0xb483 && fcs_byte(162) == 0x8618 && fcs_byte(163) == 0x9791,
        fcs_byte(164) == 0xe32e && fcs_byte(165) == 0xf2a7 && fcs_byte(166) == 0xc03c && fcs_byte(167) == 0xd1b5,
        fcs_byte(168) == 0x2942 && fcs_byte(169) == 0x38cb && fcs_byte(170) == 0x0a50 && fcs_byte(171) == 0x1bd9,
        fcs_byte(172) == 0x6f66 && fcs_byte(173) == 0x7eef && fcs_byte(174) == 0x4c74 && fcs_byte(175) == 0x5dfd,
        fcs_byte(176) == 0xb58b && fcs_byte(177) == 0xa402 && fcs_byte(178) == 0x9699 && fcs_byte(179) == 0x8710,
        fcs_byte(180) == 0xf3af && fcs_byte(181) == 0xe226 && fcs_byte(182) == 0xd0bd && fcs_byte(183) == 0xc134,
        fcs_byte(184) == 0x39c3 && fcs_byte(185) == 0x284a && fcs_byte(186) == 0x1ad1 && fcs_byte(187) == 0x0b58,
        fcs_byte(188) == 0x7fe7 && fcs_byte(189) == 0x6e6e && fcs_byte(190) == 0x5cf5 && fcs_byte(191) == 0x4d7c,
        fcs_byte(192) == 0xc60c && fcs_byte(193) == 0xd785 && fcs_byte(194) == 0xe51e && fcs_byte(195) == 0xf497,
        fcs_byte(196) == 0x8028 && fcs_byte(197) == 0x91a1 && fcs_byte(198) == 0xa33a && fcs_byte(199) == 0xb2b3,
        fcs_byte(200) == 0x4a44 && fcs_byte(201) == 0x5bcd && fcs_byte(202) == 0x6956 && fcs_byte(203) == 0x78df,
        fcs_byte(204) == 0x0c60 && fcs_byte(205) == 0x1de9 && fcs_byte(206) == 0x2f72 && fcs_byte(207) == 0x3efb,
        fcs_byte(208) == 0xd68d && fcs_byte(209) == 0xc704 && fcs_byte(210) == 0xf59f && fcs_byte(211) == 0xe416,
        fcs_byte(212) == 0x90a9 && fcs_byte(213) == 0x8120 && fcs_byte(214) == 0xb3bb && fcs_byte(215) == 0xa232,
        fcs_byte(216) == 0x5ac5 && fcs_byte(217) == 0x4b4c && fcs_byte(218) == 0x79d7 && fcs_byte(219) == 0x685e,
        fcs_byte(220) == 0x1ce1 && fcs_byte(221) == 0x0d68 && fcs_byte(222) == 0x3ff3 && fcs_byte(223) == 0x2e7a,
        fcs_byte(224) == 0xe70e && fcs_byte(225) == 0xf687 && fcs_byte(226) == 0xc41c && fcs_byte(227) == 0xd595,
        fcs_byte(228) == 0xa12a && fcs_byte(229) == 0xb0a3 && fcs_byte(230) == 0x8238 && fcs_byte(231) == 0x93b1,
        fcs_byte(232) == 0x6b46 && fcs_byte(233) == 0x7acf && fcs_byte(234) == 0x4854 && fcs_byte(235) == 0x59dd,
        fcs_byte(236) == 0x2d62 && fcs_byte(237) == 0x3ceb && fcs_byte(238) == 0x0e70 && fcs_byte(239) == 0x1ff9,
        fcs_byte(240) == 0xf78f && fcs_byte(241) == 0xe606 && fcs_byte(242) == 0xd49d && fcs_byte(243) == 0xc514,
        fcs_byte(244) == 0xb1ab && fcs_byte(245) == 0xa022 && fcs_byte(246) == 0x92b9 && fcs_byte(247) == 0x8330,
        fcs_byte(248) == 0x7bc7 && fcs_byte(249) == 0x6a4e && fcs_byte(250) == 0x58d5 && fcs_byte(251) == 0x495c,
        fcs_byte(252) == 0x3de3 && fcs_byte(253) == 0x2c6a && fcs_byte(254) == 0x1ef1 && fcs_byte(255) == 0x0f78,
{
}

/// The table holds the remainder of each byte value.
proof fn lemma_table(i: u16)
    requires
        i < 256,
    ensures
        FCS_TAB@[i as int] == fcs_byte(i),
{
    lemma_values();
}

/// The high byte only shifts through while the low byte is divided.
proof fn lemma_byte_split(x: u16)
    by (bit_vector)
    ensures
        fcs_byte(x) == (x >> 8) ^ fcs_byte(x & 0xff),
{
}

/// A byte can be divided without a loop.
proof fn lemma_byte_without_loop(z: u16)
    by (bit_vector)
    ensures
        fcs_byte(z) == ({
            let x: u16 = z & 0xff;
            let y: u16 = (x ^ (x << 4)) & 0xff;
            (z >> 8) ^ (y << 8) ^ (y << 3) ^ (y >> 4)
        }),
{
}

/// A byte can be folded in without a loop.
pub proof fn lemma_without_loop(sum: u16, byte: u8)
    ensures
        fcs_step(sum, byte) == ({
            let x: u16 = (sum ^ (byte as u16)) & 0xff;
            let y: u16 = (x ^ (x << 4)) & 0xff;
            (sum >> 8) ^ (y << 8) ^ (y << 3) ^ (y >> 4)
        }),
{
    let b: u16 = byte as u16;
    lemma_byte_without_loop(sum ^ b);
    assert(b < 256 ==> (sum ^ b) >> 8 == sum >> 8) by (bit_vector);
}

/// The check sequence that starts at `sum` and runs over `data`.
pub open spec fn fcs(sum: u16, data: Seq<u8>) -> u16
    decreases data.len(),
{
    if data.len() == 0 {
        sum
    } else {
        fcs_step(fcs(sum, data.drop_last()), data.last())
    }
}

/// The check sequence of the address and control bytes that open every frame.
pub const ADDRESS_CONTROL_CHECKSUM: u16 = 0x3de3;

/// The check sequence of a frame that arrived intact, its own check bytes
/// included.
pub const GOOD_CHECKSUM: u16 = 0xf0b8;

/// The two check bytes of a running sum: its complement, low byte first.
pub open spec fn check_bytes(sum: u16) -> Seq<u8> {
    seq![((sum ^ 0xffff) & 0xff) as u8, (((sum ^ 0xffff) >> 8) & 0xff) as u8]
}

/// Running over `a` and then over `b` is running over the two in a row.
pub proof fn law_fcs_concat(sum: u16, a: Seq<u8>, b: Seq<u8>)
    ensures
        fcs(sum, a + b) == fcs(fcs(sum, a), b),
    decreases b.len(),
{
    if b.len() == 0 {
        assert(a + b =~= a);
    } else {
        assert((a + b).drop_last() =~= a + b.drop_last());
        assert((a + b).last() == b.last());
        law_fcs_concat(sum, a, b.drop_last());
    }
}

/// Whatever the start and the data, appending the check bytes brings the sum to
/// [`GOOD_CHECKSUM`].
pub proof fn law_fcs_residue(sum: u16, data: Seq<u8>)
    ensures
        fcs(sum, data + check_bytes(fcs(sum, data))) == GOOD_CHECKSUM,
{
    let c = fcs(sum, data);
    let x = c ^ 0xffff;
    let lo = (x & 0xff) as u8;
    let hi = ((x >> 8) & 0xff) as u8;
    let t = check_bytes(c);
    law_fcs_concat(sum, data, t);
    assert(t.drop_last().drop_last() =~= Seq::<u8>::empty());
    assert(t.drop_last() =~= seq![lo]);
    reveal_with_fuel(fcs, 3);
    assert(fcs(c, t) == fcs_step(fcs_step(c, lo), hi));
    let y = c ^ (lo as u16);
    lemma_values();
    lemma_byte_split(y);
    assert(lo == ((c ^ 0xffff) & 0xff) as u8 ==> (c ^ (lo as u16)) & 0xff == 0xff && (c ^ (
    lo as u16)) >> 8 == c >> 8) by (bit_vector);
    let d = fcs_step(c, lo);
    assert(d == (c >> 8) ^ 0x0f78);
    lemma_byte_split(d ^ (hi as u16));
    assert(d == (c >> 8) ^ 0x0f78 && hi == (((c ^ 0xffff) >> 8) & 0xff) as u8 ==> (d ^ (hi as u16))
        & 0xff == 0x87 && (d ^ (hi as u16)) >> 8 == 0x0f) by (bit_vector);
    assert(0x0fu16 ^ 0xf0b7 == 0xf0b8) by (bit_vector);
}

/// [`ADDRESS_CONTROL_CHECKSUM`] is the sum over the bytes 0xff and 0x03.
pub proof fn law_address_control_checksum()
    ensures
        fcs(0xffff, seq![0xffu8, 0x03u8]) == ADDRESS_CONTROL_CHECKSUM,
{
    let t = seq![0xffu8, 0x03u8];
    assert(t.drop_last() =~= seq![0xffu8]);
    assert(t.drop_last().drop_last() =~= Seq::<u8>::empty());
    reveal_with_fuel(fcs, 3);
    lemma_values();
    lemma_byte_split(0xff00);
    lemma_byte_split(0x00fc);
    assert(0xffffu16 ^ 0x00ff == 0xff00 && 0xff00u16 & 0xff == 0 && 0xff00u16 >> 8 == 0xff && 0xffu16
        ^ 0 == 0xff && 0xffu16 ^ 0x03 == 0xfc) by (bit_vector);
}

/// Run the check sequence from `sum` over `data`.
pub fn frame_checksum_16bit(sum: u16, data: &[u8]) -> (r: u16)
    ensures
        r == fcs(sum, data@),
{
    let mut sum: u16 = sum;
    let ghost start = sum;
    let mut i: usize = 0;
    while i < data.len()
        invariant
            i <= data@.len(),
            sum == fcs(start, data@.take(i as int)),
        decreases data@.len() - i,
    {
        let b: u8 = data[i];
        let index: usize = ((sum ^ (b as u16)) & 0xff) as usize;
        assert(((sum ^ (b as u16)) & 0xff) < 256) by (bit_vector);
        proof {
            lemma_table((sum ^ (b as u16)) & 0xff);
            lemma_byte_split(sum ^ (b as u16));
            let x: u16 = b as u16;
            assert(x < 256 ==> (sum ^ x) >> 8 == sum >> 8) by (bit_vector);
            assert(data@.take(i + 1).drop_last() =~= data@.take(i as int));
        }
        sum = (sum >> 8) ^ FCS_TAB[index];
        i = i + 1;
    }
    assert(data@.take(i as int) =~= data@);
    sum
}

} // verus!

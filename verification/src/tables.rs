//! Lookup tables of the fixed-point synthesizer.
use vstd::prelude::*;

verus! {

/// One cycle of a sine wave in 256 steps (plus the wrap-around entry),
/// offset so that 32767 is zero: entry k is round(32767 + 32767 sin(2 pi k / 256)).
pub const SINE: [u16; 257] = [
    32767, 33571, 34375, 35177, 35979, 36778, 37575, 38369, 39160, 39946, 40729, 41506,
    42279, 43045, 43806, 44560, 45306, 46046, 46777, 47499, 48213, 48918, 49613, 50297,
    50971, 51635, 52286, 52926, 53554, 54170, 54772, 55361, 55937, 56498, 57046, 57578,
    58096, 58599, 59086, 59557, 60012, 60450, 60872, 61277, 61665, 62035, 62388, 62723,
    63040, 63338, 63619, 63880, 64123, 64347, 64552, 64738, 64904, 65052, 65179, 65288,
    65376, 65445, 65495, 65524, 65534, 65524, 65495, 65445, 65376, 65288, 65179, 65052,
    64904, 64738, 64552, 64347, 64123, 63880, 63619, 63338, 63040, 62723, 62388, 62035,
    61665, 61277, 60872, 60450, 60012, 59557, 59086, 58599, 58096, 57578, 57046, 56498,
    55937, 55361, 54772, 54170, 53554, 52926, 52286, 51635, 50971, 50297, 49613, 48918,
    48213, 47499, 46777, 46046, 45306, 44560, 43806, 43045, 42279, 41506, 40729, 39946,
    39160, 38369, 37575, 36778, 35979, 35177, 34375, 33571, 32767, 31963, 31159, 30357,
    29555, 28756, 27959, 27165, 26374, 25588, 24805, 24028, 23255, 22489, 21728, 20974,
    20228, 19488, 18757, 18035, 17321, 16616, 15921, 15237, 14563, 13899, 13248, 12608,
    11980, 11364, 10762, 10173, 9597, 9036, 8488, 7956, 7438, 6935, 6448, 5977,
    5522, 5084, 4662, 4257, 3869, 3499, 3146, 2811, 2494, 2196, 1915, 1654,
    1411, 1187, 982, 796, 630, 482, 355, 246, 158, 89, 39, 10,
    0, 10, 39, 89, 158, 246, 355, 482, 630, 796, 982, 1187,
    1411, 1654, 1915, 2196, 2494, 2811, 3146, 3499, 3869, 4257, 4662, 5084,
    5522, 5977, 6448, 6935, 7438, 7956, 8488, 9036, 9597, 10173, 10762, 11364,
    11980, 12608, 13248, 13899, 14563, 15237, 15921, 16616, 17321, 18035, 18757, 19488,
    20228, 20974, 21728, 22489, 23255, 24028, 24805, 25588, 26374, 27165, 27959, 28756,
    29555, 30357, 31159, 31963, 32767,
];

/// Decay curve: entry j is round(65535 exp(-j / 16)), for j in 0..=80.
pub const DECAY: [u16; 81] = [
    65535, 61564, 57834, 54330, 51039, 47946, 45042, 42313, 39749, 37341, 35078, 32953,
    30957, 29081, 27319, 25664, 24109, 22648, 21276, 19987, 18776, 17639, 16570, 15566,
    14623, 13737, 12905, 12123, 11388, 10698, 10050, 9441, 8869, 8332, 7827, 7353,
    6907, 6489, 6096, 5726, 5379, 5054, 4747, 4460, 4190, 3936, 3697, 3473,
    3263, 3065, 2879, 2705, 2541, 2387, 2242, 2107, 1979, 1859, 1746, 1641,
    1541, 1448, 1360, 1278, 1200, 1128, 1059, 995, 935, 878, 825, 775,
    728, 684, 642, 604, 567, 533, 500, 470, 442,
];

/// The twelve semitones of the lowest octave, in micro-hertz: entry k is
/// round(859375 * 2^(k / 12)); 859375 uHz is the A five octaves below A0.
pub const SEMITONES: [u64; 12] = [
    859375, 910476, 964616, 1021975, 1082745, 1147128, 1215340, 1287608, 1364173, 1445291, 1531232, 1622284,
];

} // verus!

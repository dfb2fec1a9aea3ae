//! Tangents of whole-degree angles in fixed point.

use vstd::prelude::*;

verus! {

/// A steering angle in whole degrees: negative is left, positive is right,
/// zero is straight ahead. Steering angles lie between -90 and 90.
pub type Angle = i64;

/// The fixed-point representation of one for tangents, which are held to 58
/// binary places: 2 to the power 58.
pub const TANGENT_ONE: u128 = 0x400_0000_0000_0000;

/// Whether `angle` is a steering angle.
pub open spec fn is_steering_angle(angle: int) -> bool {
    -90 <= angle <= 90
}

/// Tangent of an angle of `degrees` whole degrees, in units of 2^-58.
///
/// Each entry below 90 is the double-precision tangent of the angle, which is
/// a whole number of such units. At 90 degrees the tangent has no finite
/// value; the entry there exceeds every ratio of two pixel counts, so that a
/// ray cast at that angle leaves any frame at once.
#[verifier::opaque]
pub open spec fn tangent_magnitude(degrees: int) -> int
    recommends
        0 <= degrees <= 90,
{
    if degrees == 0 {
        0
    } else if degrees == 1 {
        5_031_079_930_012_706
    } else if degrees == 2 {
        10_065_226_526_113_668
    } else if degrees == 3 {
        15_105_513_936_026_854
    } else if degrees == 4 {
        20_155_031_309_568_016
    } else if degrees == 5 {
        25_216_890_397_087_620
    } else if degrees == 6 {
        30_294_233_265_763_936
    } else if degrees == 7 {
        35_390_240_174_666_952
    } else if degrees == 8 {
        40_508_137_650_945_832
    } else if degrees == 9 {
        45_651_206_811_319_432
    } else if degrees == 10 {
        50_822_791_975_296_480
    } else if degrees == 11 {
        56_026_309_619_250_608
    } else if degrees == 12 {
        61_265_257_723_664_992
    } else if degrees == 13 {
        66_543_225_569_586_336
    } else if degrees == 14 {
        71_863_904_044_645_024
    } else if degrees == 15 {
        77_231_096_523_969_888
    } else if degrees == 16 {
        82_648_730_397_028_896
    } else if degrees == 17 {
        88_120_869_317_948_848
    } else if degrees == 18 {
        93_651_726_264_310_496
    } else if degrees == 19 {
        99_245_677_497_901_360
    } else if degrees == 20 {
        104_907_277_530_574_144
    } else if degrees == 21 {
        110_641_275_209_371_744
    } else if degrees == 22 {
        116_452_631_047_623_680
    } else if degrees == 23 {
        122_346_535_943_023_088
    } else if degrees == 24 {
        128_328_431_440_011_488
    } else if degrees == 25 {
        134_404_031_712_439_056
    } else if degrees == 26 {
        140_579_347_463_786_304
    } else if degrees == 27 {
        146_860_711_966_649_216
    } else if degrees == 28 {
        153_254_809_491_200_896
    } else if degrees == 29 {
        159_768_706_404_530_144
    } else if degrees == 30 {
        166_409_885_259_817_856
    } else if degrees == 31 {
        173_186_282_237_064_096
    } else if degrees == 32 {
        180_106_328_346_501_792
    } else if degrees == 33 {
        187_178_994_863_096_288
    } else if degrees == 34 {
        194_413_843_527_025_856
    } else if degrees == 35 {
        201_821_082_122_448_704
    } else if degrees == 36 {
        209_411_626_137_200_736
    } else if degrees == 37 {
        217_197_167_311_774_208
    } else if degrees == 38 {
        225_190_250_009_956_928
    } else if degrees == 39 {
        233_404_356_489_447_104
    } else if degrees == 40 {
        241_854_002_322_989_984
    } else if degrees == 41 {
        250_554_843_424_465_440
    } else if degrees == 42 {
        259_523_796_376_488_928
    } else if degrees == 43 {
        268_779_174_044_604_128
    } else if degrees == 44 {
        278_340_838_808_128_576
    } else if degrees == 45 {
        288_230_376_151_711_712
    } else if degrees == 46 {
        298_471_291_860_355_968
    } else if degrees == 47 {
        309_089_236_663_740_160
    } else if degrees == 48 {
        320_112_262_908_016_832
    } else if degrees == 49 {
        331_571_118_726_357_056
    } else if degrees == 50 {
        343_499_586_273_582_976
    } else if degrees == 51 {
        355_934_871_936_777_152
    } else if degrees == 52 {
        368_918_058_099_246_976
    } else if degrees == 53 {
        382_494_628_105_831_936
    } else if degrees == 54 {
        396_715_078_665_821_696
    } else if degrees == 55 {
        411_635_637_183_596_992
    } else if degrees == 56 {
        427_319_105_622_273_216
    } else if degrees == 57 {
        443_835_857_743_119_232
    } else if degrees == 58 {
        461_265_023_274_074_496
    } else if degrees == 59 {
        479_695_901_219_465_984
    } else if degrees == 60 {
        499_229_655_779_453_440
    } else if degrees == 61 {
        519_981_363_097_533_632
    } else if degrees == 62 {
        542_082_496_545_252_480
    } else if degrees == 63 {
        565_683_964_241_050_624
    } else if degrees == 64 {
        590_959_847_483_700_096
    } else if degrees == 65 {
        618_112_036_358_419_072
    } else if degrees == 66 {
        647_376_024_192_989_440
    } else if degrees == 67 {
        679_028_213_559_280_384
    } else if degrees == 68 {
        713_395_214_768_335_744
    } else if degrees == 69 {
        750_865_801_025_405_056
    } else if degrees == 70 {
        791_906_450_077_739_904
    } else if degrees == 71 {
        837_081_793_696_395_136
    } else if degrees == 72 {
        887_081_883_595_953_920
    } else if degrees == 73 {
        942_759_080_562_495_104
    } else if degrees == 74 {
        1_005_178_776_945_177_728
    } else if degrees == 75 {
        1_075_690_408_082_877_184
    } else if degrees == 76 {
        1_156_028_897_135_150_336
    } else if degrees == 77 {
        1_248_462_920_536_987_136
    } else if degrees == 78 {
        1_356_017_306_109_642_752
    } else if degrees == 79 {
        1_482_816_739_155_920_896
    } else if degrees == 80 {
        1_634_635_692_130_775_808
    } else if degrees == 81 {
        1_819_814_974_003_226_880
    } else if degrees == 82 {
        2_050_865_691_541_300_736
    } else if degrees == 83 {
        2_347_448_034_444_966_912
    } else if degrees == 84 {
        2_742_328_845_485_051_904
    } else if degrees == 85 {
        3_294_488_274_658_642_432
    } else if degrees == 86 {
        4_121_886_414_392_174_592
    } else if degrees == 87 {
        5_499_763_204_906_115_072
    } else if degrees == 88 {
        8_253_838_055_310_429_184
    } else if degrees == 89 {
        16_512_707_190_550_841_344
    } else {
        4_707_159_261_795_139_100_513_821_555_425_280
    }
}

/// The table is nonnegative, zero straight ahead, below 64 short of 90
/// degrees, and beyond every ratio of 32-bit pixel counts at 90 degrees.
pub proof fn lemma_tangent_bounds(degrees: int)
    requires
        0 <= degrees <= 90,
    ensures
        0 <= tangent_magnitude(degrees),
        degrees == 0 ==> tangent_magnitude(degrees) == 0,
        degrees < 90 ==> tangent_magnitude(degrees) < 0x1_0000_0000_0000_0000,
        degrees == 90 ==> tangent_magnitude(degrees) > 0x8000_0000 * TANGENT_ONE,
        tangent_magnitude(degrees) < 0x1_0000_0000_0000_0000_0000_0000_0000,
{
    reveal(tangent_magnitude);
}

/// Looks up the tangent of `degrees` whole degrees in units of 2^-58.
pub fn tangent_of(degrees: u8) -> (t: u128)
    requires
        degrees <= 90,
    ensures
        t as int == tangent_magnitude(degrees as int),
{
    proof {
        reveal(tangent_magnitude);
    }
    match degrees {
        0 => 0,
        1 => 5_031_079_930_012_706,
        2 => 10_065_226_526_113_668,
        3 => 15_105_513_936_026_854,
        4 => 20_155_031_309_568_016,
        5 => 25_216_890_397_087_620,
        6 => 30_294_233_265_763_936,
        7 => 35_390_240_174_666_952,
        8 => 40_508_137_650_945_832,
        9 => 45_651_206_811_319_432,
        10 => 50_822_791_975_296_480,
        11 => 56_026_309_619_250_608,
        12 => 61_265_257_723_664_992,
        13 => 66_543_225_569_586_336,
        14 => 71_863_904_044_645_024,
        15 => 77_231_096_523_969_888,
        16 => 82_648_730_397_028_896,
        17 => 88_120_869_317_948_848,
        18 => 93_651_726_264_310_496,
        19 => 99_245_677_497_901_360,
        20 => 104_907_277_530_574_144,
        21 => 110_641_275_209_371_744,
        22 => 116_452_631_047_623_680,
        23 => 122_346_535_943_023_088,
        24 => 128_328_431_440_011_488,
        25 => 134_404_031_712_439_056,
        26 => 140_579_347_463_786_304,
        27 => 146_860_711_966_649_216,
        28 => 153_254_809_491_200_896,
        29 => 159_768_706_404_530_144,
        30 => 166_409_885_259_817_856,
        31 => 173_186_282_237_064_096,
        32 => 180_106_328_346_501_792,
        33 => 187_178_994_863_096_288,
        34 => 194_413_843_527_025_856,
        35 => 201_821_082_122_448_704,
        36 => 209_411_626_137_200_736,
        37 => 217_197_167_311_774_208,
        38 => 225_190_250_009_956_928,
        39 => 233_404_356_489_447_104,
        40 => 241_854_002_322_989_984,
        41 => 250_554_843_424_465_440,
        42 => 259_523_796_376_488_928,
        43 => 268_779_174_044_604_128,
        44 => 278_340_838_808_128_576,
        45 => 288_230_376_151_711_712,
        46 => 298_471_291_860_355_968,
        47 => 309_089_236_663_740_160,
        48 => 320_112_262_908_016_832,
        49 => 331_571_118_726_357_056,
        50 => 343_499_586_273_582_976,
        51 => 355_934_871_936_777_152,
        52 => 368_918_058_099_246_976,
        53 => 382_494_628_105_831_936,
        54 => 396_715_078_665_821_696,
        55 => 411_635_637_183_596_992,
        56 => 427_319_105_622_273_216,
        57 => 443_835_857_743_119_232,
        58 => 461_265_023_274_074_496,
        59 => 479_695_901_219_465_984,
        60 => 499_229_655_779_453_440,
        61 => 519_981_363_097_533_632,
        62 => 542_082_496_545_252_480,
        63 => 565_683_964_241_050_624,
        64 => 590_959_847_483_700_096,
        65 => 618_112_036_358_419_072,
        66 => 647_376_024_192_989_440,
        67 => 679_028_213_559_280_384,
        68 => 713_395_214_768_335_744,
        69 => 750_865_801_025_405_056,
        70 => 791_906_450_077_739_904,
        71 => 837_081_793_696_395_136,
        72 => 887_081_883_595_953_920,
        73 => 942_759_080_562_495_104,
        74 => 1_005_178_776_945_177_728,
        75 => 1_075_690_408_082_877_184,
        76 => 1_156_028_897_135_150_336,
        77 => 1_248_462_920_536_987_136,
        78 => 1_356_017_306_109_642_752,
        79 => 1_482_816_739_155_920_896,
        80 => 1_634_635_692_130_775_808,
        81 => 1_819_814_974_003_226_880,
        82 => 2_050_865_691_541_300_736,
        83 => 2_347_448_034_444_966_912,
        84 => 2_742_328_845_485_051_904,
        85 => 3_294_488_274_658_642_432,
        86 => 4_121_886_414_392_174_592,
        87 => 5_499_763_204_906_115_072,
        88 => 8_253_838_055_310_429_184,
        89 => 16_512_707_190_550_841_344,
        _ => 4_707_159_261_795_139_100_513_821_555_425_280,
    }
}

} // verus!

//! The logistic curve at two landmarks, to the last digit.
//!
//! The curve is defined by its series, which tells little about any single
//! value. These lemmas sum the series at one half and at one.
use vstd::prelude::*;
use crate::activation::{exp_neg, exp_tail, halved, logistic};
use crate::series::nested_term;

verus! {

/// `e^(-1/2)` in raw units.
pub proof fn lemma_exp_neg_at_one_half()
    ensures
        exp_neg(500_000_000_000_000) == 606_530_659_712_634,
{
    assert(exp_tail(500_000_000_000_000, 19) == 1_000_000_000_000_000);
    assert(nested_term(1_000_000_000_000_000, 500_000_000_000_000, 18) == 972_222_222_222_223) by (nonlinear_arith);
    assert(exp_tail(500_000_000_000_000, 18) == 972_222_222_222_223);
    assert(nested_term(972_222_222_222_223, 500_000_000_000_000, 17) == 971_405_228_758_170) by (nonlinear_arith);
    assert(exp_tail(500_000_000_000_000, 17) == 971_405_228_758_170);
    assert(nested_term(971_405_228_758_170, 500_000_000_000_000, 16) == 969_643_586_601_308) by (nonlinear_arith);
    assert(exp_tail(500_000_000_000_000, 16) == 969_643_586_601_308);
    assert(nested_term(969_643_586_601_308, 500_000_000_000_000, 15) == 967_678_547_113_290) by (nonlinear_arith);
    assert(exp_tail(500_000_000_000_000, 15) == 967_678_547_113_290);
    assert(nested_term(967_678_547_113_290, 500_000_000_000_000, 14) == 965_440_051_888_812) by (nonlinear_arith);
    assert(exp_tail(500_000_000_000_000, 14) == 965_440_051_888_812);
    assert(nested_term(965_440_051_888_812, 500_000_000_000_000, 13) == 962_867_690_311_969) by (nonlinear_arith);
    assert(exp_tail(500_000_000_000_000, 13) == 962_867_690_311_969);
    assert(nested_term(962_867_690_311_969, 500_000_000_000_000, 12) == 959_880_512_903_668) by (nonlinear_arith);
    assert(exp_tail(500_000_000_000_000, 12) == 959_880_512_903_668);
    assert(nested_term(959_880_512_903_668, 500_000_000_000_000, 11) == 956_369_067_595_288) by (nonlinear_arith);
    assert(exp_tail(500_000_000_000_000, 11) == 956_369_067_595_288);
    assert(nested_term(956_369_067_595_288, 500_000_000_000_000, 10) == 952_181_546_620_236) by (nonlinear_arith);
    assert(exp_tail(500_000_000_000_000, 10) == 952_181_546_620_236);
    assert(nested_term(952_181_546_620_236, 500_000_000_000_000, 9) == 947_101_025_187_765) by (nonlinear_arith);
    assert(exp_tail(500_000_000_000_000, 9) == 947_101_025_187_765);
    assert(nested_term(947_101_025_187_765, 500_000_000_000_000, 8) == 940_806_185_925_765) by (nonlinear_arith);
    assert(exp_tail(500_000_000_000_000, 8) == 940_806_185_925_765);
    assert(nested_term(940_806_185_925_765, 500_000_000_000_000, 7) == 932_799_558_148_160) by (nonlinear_arith);
    assert(exp_tail(500_000_000_000_000, 7) == 932_799_558_148_160);
    assert(nested_term(932_799_558_148_160, 500_000_000_000_000, 6) == 922_266_703_487_654) by (nonlinear_arith);
    assert(exp_tail(500_000_000_000_000, 6) == 922_266_703_487_654);
    assert(nested_term(922_266_703_487_654, 500_000_000_000_000, 5) == 907_773_329_651_235) by (nonlinear_arith);
    assert(exp_tail(500_000_000_000_000, 5) == 907_773_329_651_235);
    assert(nested_term(907_773_329_651_235, 500_000_000_000_000, 4) == 886_528_333_793_596) by (nonlinear_arith);
    assert(exp_tail(500_000_000_000_000, 4) == 886_528_333_793_596);
    assert(nested_term(886_528_333_793_596, 500_000_000_000_000, 3) == 852_245_277_701_068) by (nonlinear_arith);
    assert(exp_tail(500_000_000_000_000, 3) == 852_245_277_701_068);
    assert(nested_term(852_245_277_701_068, 500_000_000_000_000, 2) == 786_938_680_574_733) by (nonlinear_arith);
    assert(exp_tail(500_000_000_000_000, 2) == 786_938_680_574_733);
    assert(nested_term(786_938_680_574_733, 500_000_000_000_000, 1) == 606_530_659_712_634) by (nonlinear_arith);
    assert(exp_tail(500_000_000_000_000, 1) == 606_530_659_712_634);
    assert(500_000_000_000_000int % 693_147_180_559_945 == 500_000_000_000_000);
    assert(500_000_000_000_000int / 693_147_180_559_945 == 0);
}

/// `e^(-1)` in raw units.
pub proof fn lemma_exp_neg_at_one()
    ensures
        exp_neg(1_000_000_000_000_000) == 367_879_441_171_442,
{
    assert(exp_tail(306_852_819_440_055, 19) == 1_000_000_000_000_000);
    assert(nested_term(1_000_000_000_000_000, 306_852_819_440_055, 18) == 982_952_621_142_220) by (nonlinear_arith);
    assert(exp_tail(306_852_819_440_055, 18) == 982_952_621_142_220);
    assert(nested_term(982_952_621_142_220, 306_852_819_440_055, 17) == 982_257_542_166_266) by (nonlinear_arith);
    assert(exp_tail(306_852_819_440_055, 17) == 982_257_542_166_266);
    assert(nested_term(982_257_542_166_266, 306_852_819_440_055, 16) == 981_161_968_985_627) by (nonlinear_arith);
    assert(exp_tail(306_852_819_440_055, 16) == 981_161_968_985_627);
    assert(nested_term(981_161_968_985_627, 306_852_819_440_055, 15) == 979_928_512_232_627) by (nonlinear_arith);
    assert(exp_tail(306_852_819_440_055, 15) == 979_928_512_232_627);
    assert(nested_term(979_928_512_232_627, 306_852_819_440_055, 14) == 978_521_869_512_266) by (nonlinear_arith);
    assert(exp_tail(306_852_819_440_055, 14) == 978_521_869_512_266);
    assert(nested_term(978_521_869_512_266, 306_852_819_440_055, 13) == 976_902_908_112_032) by (nonlinear_arith);
    assert(exp_tail(306_852_819_440_055, 13) == 976_902_908_112_032);
    assert(nested_term(976_902_908_112_032, 306_852_819_440_055, 12) == 975_019_549_027_220) by (nonlinear_arith);
    assert(exp_tail(306_852_819_440_055, 12) == 975_019_549_027_220);
    assert(nested_term(975_019_549_027_220, 306_852_819_440_055, 11) == 972_801_136_579_257) by (nonlinear_arith);
    assert(exp_tail(306_852_819_440_055, 11) == 972_801_136_579_257);
    assert(nested_term(972_801_136_579_257, 306_852_819_440_055, 10) == 970_149_322_848_617) by (nonlinear_arith);
    assert(exp_tail(306_852_819_440_055, 10) == 970_149_322_848_617);
    assert(nested_term(970_149_322_848_617, 306_852_819_440_055, 9) == 966_922_993_889_561) by (nonlinear_arith);
    assert(exp_tail(306_852_819_440_055, 9) == 966_922_993_889_561);
    assert(nested_term(966_922_993_889_561, 306_852_819_440_055, 8) == 962_912_119_142_947) by (nonlinear_arith);
    assert(exp_tail(306_852_819_440_055, 8) == 962_912_119_142_947);
    assert(nested_term(962_912_119_142_947, 306_852_819_440_055, 7) == 957_789_671_623_999) by (nonlinear_arith);
    assert(exp_tail(306_852_819_440_055, 7) == 957_789_671_623_999);
    assert(nested_term(957_789_671_623_999, 306_852_819_440_055, 6) == 951_016_589_805_269) by (nonlinear_arith);
    assert(exp_tail(306_852_819_440_055, 6) == 951_016_589_805_269);
    assert(nested_term(951_016_589_805_269, 306_852_819_440_055, 5) == 941_635_575_616_798) by (nonlinear_arith);
    assert(exp_tail(306_852_819_440_055, 5) == 941_635_575_616_798);
    assert(nested_term(941_635_575_616_798, 306_852_819_440_055, 4) == 927_764_117_184_232) by (nonlinear_arith);
    assert(exp_tail(306_852_819_440_055, 4) == 927_764_117_184_232);
    assert(nested_term(927_764_117_184_232, 306_852_819_440_055, 3) == 905_104_321_622_235) by (nonlinear_arith);
    assert(exp_tail(306_852_819_440_055, 3) == 905_104_321_622_235);
    assert(nested_term(905_104_321_622_235, 306_852_819_440_055, 2) == 861_133_093_511_420) by (nonlinear_arith);
    assert(exp_tail(306_852_819_440_055, 2) == 861_133_093_511_420);
    assert(nested_term(861_133_093_511_420, 306_852_819_440_055, 1) == 735_758_882_342_885) by (nonlinear_arith);
    assert(exp_tail(306_852_819_440_055, 1) == 735_758_882_342_885);
    assert(1_000_000_000_000_000int % 693_147_180_559_945 == 306_852_819_440_055);
    assert(1_000_000_000_000_000int / 693_147_180_559_945 == 1);
    assert(halved(735_758_882_342_885, 1) == halved(367_879_441_171_442, 0));
}

/// The logistic curve at one half, at one, and at their mirror images.
pub proof fn lemma_logistic_landmarks()
    ensures
        logistic(500_000_000_000_000) == 622_459_331_201_854,
        logistic(-500_000_000_000_000) == 377_540_668_798_146,
        logistic(1_000_000_000_000_000) == 731_058_578_630_005,
        logistic(-1_000_000_000_000_000) == 268_941_421_369_995,
{
    lemma_exp_neg_at_one_half();
    lemma_exp_neg_at_one();
    let s: int = 1_000_000_000_000_000;
    let a: int = 606_530_659_712_634;
    let b: int = 367_879_441_171_442;
    assert((s * s) / (s + a) == 622_459_331_201_854 && (s * s) / (s + b) == 731_058_578_630_005)
        by (nonlinear_arith)
        requires
            s == 1_000_000_000_000_000,
            a == 606_530_659_712_634,
            b == 367_879_441_171_442,
    ;
}

} // verus!

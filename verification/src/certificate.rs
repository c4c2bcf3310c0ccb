//! The powers of the generator that [`crate::primality`] builds on.
//!
//! The first four lemmas square the generator 60 times. Each of the other
//! twelve multiplies the squares that make up one exponent `(m - 1) / q`,
//! where `q` is a prime that divides `m - 1`. Every step names the two
//! factors and their product modulo `m`, so that it is checked by one
//! multiplication.

use vstd::prelude::*;
use crate::primality::generator;
use crate::primality::lemma_double;
use crate::primality::lemma_first_power;
use crate::primality::lemma_join;
use crate::primality::pow_mod;

verus! {

/// The powers of the generator whose exponents are `2^0` to `2^15`.
pub(crate) proof fn lemma_squares_0()
    ensures
        pow_mod(generator(), 1) == 37,
        pow_mod(generator(), 2) == 1369,
        pow_mod(generator(), 4) == 1874161,
        pow_mod(generator(), 8) == 3512479453921,
        pow_mod(generator(), 16) == 2048012909902302799,
        pow_mod(generator(), 32) == 307828676072022436,
        pow_mod(generator(), 64) == 1530484379699738889,
        pow_mod(generator(), 128) == 1671968728696755707,
        pow_mod(generator(), 256) == 649718369440752735,
        pow_mod(generator(), 512) == 1874702330417107273,
        pow_mod(generator(), 1024) == 5986862548113618,
        pow_mod(generator(), 2048) == 1820568710247692212,
        pow_mod(generator(), 4096) == 404534779322076428,
        pow_mod(generator(), 8192) == 649492471404925175,
        pow_mod(generator(), 16384) == 1106896147619454396,
        pow_mod(generator(), 32768) == 1669740733653474757,
{
    lemma_first_power();
    lemma_double(1, 37, 1369);
    lemma_double(2, 1369, 1874161);
    lemma_double(4, 1874161, 3512479453921);
    lemma_double(8, 3512479453921, 2048012909902302799);
    lemma_double(16, 2048012909902302799, 307828676072022436);
    lemma_double(32, 307828676072022436, 1530484379699738889);
    lemma_double(64, 1530484379699738889, 1671968728696755707);
    lemma_double(128, 1671968728696755707, 649718369440752735);
    lemma_double(256, 649718369440752735, 1874702330417107273);
    lemma_double(512, 1874702330417107273, 5986862548113618);
    lemma_double(1024, 5986862548113618, 1820568710247692212);
    lemma_double(2048, 1820568710247692212, 404534779322076428);
    lemma_double(4096, 404534779322076428, 649492471404925175);
    lemma_double(8192, 649492471404925175, 1106896147619454396);
    lemma_double(16384, 1106896147619454396, 1669740733653474757);
}

/// The powers of the generator whose exponents are `2^16` to `2^30`.
pub(crate) proof fn lemma_squares_1()
    ensures
        pow_mod(generator(), 65536) == 1267668060077347163,
        pow_mod(generator(), 131072) == 1416360387298873781,
        pow_mod(generator(), 262144) == 1564471842796986341,
        pow_mod(generator(), 524288) == 735250336065844589,
        pow_mod(generator(), 1048576) == 1488752000173493138,
        pow_mod(generator(), 2097152) == 1320279768446765050,
        pow_mod(generator(), 4194304) == 1747983813596511721,
        pow_mod(generator(), 8388608) == 67869839423255989,
        pow_mod(generator(), 16777216) == 2164827040180914092,
        pow_mod(generator(), 33554432) == 1744025871715016688,
        pow_mod(generator(), 67108864) == 73251981582425893,
        pow_mod(generator(), 134217728) == 277374673314010419,
        pow_mod(generator(), 268435456) == 92934223038987942,
        pow_mod(generator(), 536870912) == 621132062226937276,
        pow_mod(generator(), 1073741824) == 552523982103027780,
{
    lemma_squares_0();
    lemma_double(32768, 1669740733653474757, 1267668060077347163);
    lemma_double(65536, 1267668060077347163, 1416360387298873781);
    lemma_double(131072, 1416360387298873781, 1564471842796986341);
    lemma_double(262144, 1564471842796986341, 735250336065844589);
    lemma_double(524288, 735250336065844589, 1488752000173493138);
    lemma_double(1048576, 1488752000173493138, 1320279768446765050);
    lemma_double(2097152, 1320279768446765050, 1747983813596511721);
    lemma_double(4194304, 1747983813596511721, 67869839423255989);
    lemma_double(8388608, 67869839423255989, 2164827040180914092);
    lemma_double(16777216, 2164827040180914092, 1744025871715016688);
    lemma_double(33554432, 1744025871715016688, 73251981582425893);
    lemma_double(67108864, 73251981582425893, 277374673314010419);
    lemma_double(134217728, 277374673314010419, 92934223038987942);
    lemma_double(268435456, 92934223038987942, 621132062226937276);
    lemma_double(536870912, 621132062226937276, 552523982103027780);
}

/// The powers of the generator whose exponents are `2^31` to `2^45`.
pub(crate) proof fn lemma_squares_2()
    ensures
        pow_mod(generator(), 2147483648) == 1810209022387899939,
        pow_mod(generator(), 4294967296) == 559096694736811184,
        pow_mod(generator(), 8589934592) == 711094314562858615,
        pow_mod(generator(), 17179869184) == 1622448854954581329,
        pow_mod(generator(), 34359738368) == 841055254665985916,
        pow_mod(generator(), 68719476736) == 697959595997859570,
        pow_mod(generator(), 137438953472) == 1808678955228361916,
        pow_mod(generator(), 274877906944) == 1904955967673210270,
        pow_mod(generator(), 549755813888) == 1826762296907946662,
        pow_mod(generator(), 1099511627776) == 395654014531890260,
        pow_mod(generator(), 2199023255552) == 1189103440328413580,
        pow_mod(generator(), 4398046511104) == 1894874107849652993,
        pow_mod(generator(), 8796093022208) == 302423639519868408,
        pow_mod(generator(), 17592186044416) == 512544735919841438,
        pow_mod(generator(), 35184372088832) == 994841178892020975,
{
    lemma_squares_1();
    lemma_double(1073741824, 552523982103027780, 1810209022387899939);
    lemma_double(2147483648, 1810209022387899939, 559096694736811184);
    lemma_double(4294967296, 559096694736811184, 711094314562858615);
    lemma_double(8589934592, 711094314562858615, 1622448854954581329);
    lemma_double(17179869184, 1622448854954581329, 841055254665985916);
    lemma_double(34359738368, 841055254665985916, 697959595997859570);
    lemma_double(68719476736, 697959595997859570, 1808678955228361916);
    lemma_double(137438953472, 1808678955228361916, 1904955967673210270);
    lemma_double(274877906944, 1904955967673210270, 1826762296907946662);
    lemma_double(549755813888, 1826762296907946662, 395654014531890260);
    lemma_double(1099511627776, 395654014531890260, 1189103440328413580);
    lemma_double(2199023255552, 1189103440328413580, 1894874107849652993);
    lemma_double(4398046511104, 1894874107849652993, 302423639519868408);
    lemma_double(8796093022208, 302423639519868408, 512544735919841438);
    lemma_double(17592186044416, 512544735919841438, 994841178892020975);
}

/// The powers of the generator whose exponents are `2^46` to `2^60`.
pub(crate) proof fn lemma_squares_3()
    ensures
        pow_mod(generator(), 70368744177664) == 1365841398988935179,
        pow_mod(generator(), 140737488355328) == 1389315537057605538,
        pow_mod(generator(), 281474976710656) == 1620384436148347606,
        pow_mod(generator(), 562949953421312) == 1236195944141684822,
        pow_mod(generator(), 1125899906842624) == 1927669204547316455,
        pow_mod(generator(), 2251799813685248) == 1367449615347781359,
        pow_mod(generator(), 4503599627370496) == 1879906979325824564,
        pow_mod(generator(), 9007199254740992) == 655204990766260670,
        pow_mod(generator(), 18014398509481984) == 617443249345278015,
        pow_mod(generator(), 36028797018963968) == 93335154568859392,
        pow_mod(generator(), 72057594037927936) == 1979613501565108617,
        pow_mod(generator(), 144115188075855872) == 1945635272481320524,
        pow_mod(generator(), 288230376151711744) == 331539492389086583,
        pow_mod(generator(), 576460752303423488) == 1344516579535654772,
        pow_mod(generator(), 1152921504606846976) == 2305843009213693914,
{
    lemma_squares_2();
    lemma_double(35184372088832, 994841178892020975, 1365841398988935179);
    lemma_double(70368744177664, 1365841398988935179, 1389315537057605538);
    lemma_double(140737488355328, 1389315537057605538, 1620384436148347606);
    lemma_double(281474976710656, 1620384436148347606, 1236195944141684822);
    lemma_double(562949953421312, 1236195944141684822, 1927669204547316455);
    lemma_double(1125899906842624, 1927669204547316455, 1367449615347781359);
    lemma_double(2251799813685248, 1367449615347781359, 1879906979325824564);
    lemma_double(4503599627370496, 1879906979325824564, 655204990766260670);
    lemma_double(9007199254740992, 655204990766260670, 617443249345278015);
    lemma_double(18014398509481984, 617443249345278015, 93335154568859392);
    lemma_double(36028797018963968, 93335154568859392, 1979613501565108617);
    lemma_double(72057594037927936, 1979613501565108617, 1945635272481320524);
    lemma_double(144115188075855872, 1945635272481320524, 331539492389086583);
    lemma_double(288230376151711744, 331539492389086583, 1344516579535654772);
    lemma_double(576460752303423488, 1344516579535654772, 2305843009213693914);
}

/// The power of the generator whose exponent is `(m - 1) / 2`.
pub(crate) proof fn lemma_power_2()
    ensures
        pow_mod(generator(), 1152921504606846975) == 2305843009213693950,
{
    lemma_squares_0();
    lemma_squares_1();
    lemma_squares_2();
    lemma_squares_3();
    lemma_join(1, 37, 2, 1369, 50653);
    lemma_join(3, 50653, 4, 1874161, 94931877133);
    lemma_join(7, 94931877133, 8, 3512479453921, 616232432238528334);
    lemma_join(15, 616232432238528334, 16, 2048012909902302799, 1067761076559589719);
    lemma_join(31, 1067761076559589719, 32, 307828676072022436, 2160247207917981979);
    lemma_join(63, 2160247207917981979, 64, 1530484379699738889, 855349401310129110);
    lemma_join(127, 855349401310129110, 128, 1671968728696755707, 17559955930831155);
    lemma_join(255, 17559955930831155, 256, 649718369440752735, 1982590151784908642);
    lemma_join(511, 1982590151784908642, 512, 1874702330417107273, 1620483921678490712);
    lemma_join(1023, 1620483921678490712, 1024, 5986862548113618, 797045535697622152);
    lemma_join(2047, 797045535697622152, 2048, 1820568710247692212, 1257334999016106904);
    lemma_join(4095, 1257334999016106904, 4096, 404534779322076428, 1326275558510608058);
    lemma_join(8191, 1326275558510608058, 8192, 649492471404925175, 1027037413379420476);
    lemma_join(16383, 1027037413379420476, 16384, 1106896147619454396, 792969103897778437);
    lemma_join(32767, 792969103897778437, 32768, 1669740733653474757, 1031382600202606767);
    lemma_join(65535, 1031382600202606767, 65536, 1267668060077347163, 1347001718399633696);
    lemma_join(131071, 1347001718399633696, 131072, 1416360387298873781, 1724925218690992514);
    lemma_join(262143, 1724925218690992514, 262144, 1564471842796986341, 1453233501296778526);
    lemma_join(524287, 1453233501296778526, 524288, 735250336065844589, 1099677923156926765);
    lemma_join(1048575, 1099677923156926765, 1048576, 1488752000173493138, 2092245920878342309);
    lemma_join(2097151, 2092245920878342309, 2097152, 1320279768446765050, 1605244839025374608);
    lemma_join(4194303, 1605244839025374608, 4194304, 1747983813596511721, 2183037166537906602);
    lemma_join(8388607, 2183037166537906602, 8388608, 67869839423255989, 183149001584008162);
    lemma_join(16777215, 183149001584008162, 16777216, 2164827040180914092, 1418177623632872530);
    lemma_join(33554431, 1418177623632872530, 33554432, 1744025871715016688, 1746942060528806933);
    lemma_join(67108863, 1746942060528806933, 67108864, 73251981582425893, 630697426093268917);
    lemma_join(134217727, 630697426093268917, 134217728, 277374673314010419, 376432223738409504);
    lemma_join(268435455, 376432223738409504, 268435456, 92934223038987942, 390707841013759486);
    lemma_join(536870911, 390707841013759486, 536870912, 621132062226937276, 1448294951189675369);
    lemma_join(1073741823, 1448294951189675369, 1073741824, 552523982103027780, 983725788124143492);
    lemma_join(
        2147483647, 983725788124143492, 2147483648, 1810209022387899939, 1199192266751270169,
    );
    lemma_join(
        4294967295, 1199192266751270169, 4294967296, 559096694736811184, 1203300310530352532,
    );
    lemma_join(8589934591, 1203300310530352532, 8589934592, 711094314562858615, 480090538363525378);
    lemma_join(
        17179869183, 480090538363525378, 17179869184, 1622448854954581329, 334331629749579883,
    );
    lemma_join(
        34359738367, 334331629749579883, 34359738368, 841055254665985916, 455104342175505871,
    );
    lemma_join(
        68719476735, 455104342175505871, 68719476736, 697959595997859570, 1544565166928568020,
    );
    lemma_join(
        137438953471, 1544565166928568020, 137438953472, 1808678955228361916, 2045727898986795046,
    );
    lemma_join(
        274877906943, 2045727898986795046, 274877906944, 1904955967673210270, 423292441951084064,
    );
    lemma_join(
        549755813887, 423292441951084064, 549755813888, 1826762296907946662, 1568695384996601055,
    );
    lemma_join(
        1099511627775, 1568695384996601055, 1099511627776, 395654014531890260, 2275660858703280968,
    );
    lemma_join(
        2199023255551, 2275660858703280968, 2199023255552, 1189103440328413580, 1858495172298561556,
    );
    lemma_join(
        4398046511103, 1858495172298561556, 4398046511104, 1894874107849652993, 569054343849813891,
    );
    lemma_join(
        8796093022207, 569054343849813891, 8796093022208, 302423639519868408, 886333699051663696,
    );
    lemma_join(
        17592186044415, 886333699051663696, 17592186044416, 512544735919841438, 463128168740212936,
    );
    lemma_join(
        35184372088831, 463128168740212936, 35184372088832, 994841178892020975, 1470276502997402596,
    );
    lemma_join(
        70368744177663, 1470276502997402596, 70368744177664, 1365841398988935179, 37549068569124474,
    );
    lemma_join(
        140737488355327,
        37549068569124474,
        140737488355328,
        1389315537057605538,
        1414835963212151744,
    );
    lemma_join(
        281474976710655,
        1414835963212151744,
        281474976710656,
        1620384436148347606,
        1404452490455214912,
    );
    lemma_join(
        562949953421311,
        1404452490455214912,
        562949953421312,
        1236195944141684822,
        986900387641965560,
    );
    lemma_join(
        1125899906842623,
        986900387641965560,
        1125899906842624,
        1927669204547316455,
        535518748352900891,
    );
    lemma_join(
        2251799813685247,
        535518748352900891,
        2251799813685248,
        1367449615347781359,
        2232011143292030077,
    );
    lemma_join(
        4503599627370495,
        2232011143292030077,
        4503599627370496,
        1879906979325824564,
        890189381615080432,
    );
    lemma_join(
        9007199254740991,
        890189381615080432,
        9007199254740992,
        655204990766260670,
        1761649932630505639,
    );
    lemma_join(
        18014398509481983,
        1761649932630505639,
        18014398509481984,
        617443249345278015,
        501083222385903000,
    );
    lemma_join(
        36028797018963967,
        501083222385903000,
        36028797018963968,
        93335154568859392,
        240463311600167310,
    );
    lemma_join(
        72057594037927935,
        240463311600167310,
        72057594037927936,
        1979613501565108617,
        551145387734888436,
    );
    lemma_join(
        144115188075855871,
        551145387734888436,
        144115188075855872,
        1945635272481320524,
        445201096132025520,
    );
    lemma_join(
        288230376151711743,
        445201096132025520,
        288230376151711744,
        331539492389086583,
        410258773913995094,
    );
    lemma_join(
        576460752303423487,
        410258773913995094,
        576460752303423488,
        1344516579535654772,
        2305843009213693950,
    );
}

/// The power of the generator whose exponent is `(m - 1) / 3`.
pub(crate) proof fn lemma_power_3()
    ensures
        pow_mod(generator(), 768614336404564650) == 1669582390241348315,
{
    lemma_squares_0();
    lemma_squares_1();
    lemma_squares_2();
    lemma_squares_3();
    lemma_join(2, 1369, 8, 3512479453921, 4808584372417849);
    lemma_join(10, 4808584372417849, 32, 307828676072022436, 894912350165519413);
    lemma_join(42, 894912350165519413, 128, 1671968728696755707, 701131434997227562);
    lemma_join(170, 701131434997227562, 512, 1874702330417107273, 2036605303778127185);
    lemma_join(682, 2036605303778127185, 2048, 1820568710247692212, 321343956040114611);
    lemma_join(2730, 321343956040114611, 8192, 649492471404925175, 812136621146772022);
    lemma_join(10922, 812136621146772022, 32768, 1669740733653474757, 1020017986162963204);
    lemma_join(43690, 1020017986162963204, 131072, 1416360387298873781, 1533194195838376616);
    lemma_join(174762, 1533194195838376616, 524288, 735250336065844589, 155718072700530028);
    lemma_join(699050, 155718072700530028, 2097152, 1320279768446765050, 1047606006045650792);
    lemma_join(2796202, 1047606006045650792, 8388608, 67869839423255989, 1571764092410258675);
    lemma_join(11184810, 1571764092410258675, 33554432, 1744025871715016688, 442915905711901952);
    lemma_join(44739242, 442915905711901952, 134217728, 277374673314010419, 1870461278028150258);
    lemma_join(178956970, 1870461278028150258, 536870912, 621132062226937276, 621721964039512615);
    lemma_join(715827882, 621721964039512615, 2147483648, 1810209022387899939, 1489167355912447362);
    lemma_join(2863311530, 1489167355912447362, 8589934592, 711094314562858615, 923195156908011831);
    lemma_join(
        11453246122, 923195156908011831, 34359738368, 841055254665985916, 144926145359869064,
    );
    lemma_join(
        45812984490, 144926145359869064, 137438953472, 1808678955228361916, 538461566152087671,
    );
    lemma_join(
        183251937962, 538461566152087671, 549755813888, 1826762296907946662, 443787270311340831,
    );
    lemma_join(
        733007751850, 443787270311340831, 2199023255552, 1189103440328413580, 1872168366718845815,
    );
    lemma_join(
        2932031007402, 1872168366718845815, 8796093022208, 302423639519868408, 856854973097751333,
    );
    lemma_join(
        11728124029610, 856854973097751333, 35184372088832, 994841178892020975, 2139670068156871055,
    );
    lemma_join(
        46912496118442,
        2139670068156871055,
        140737488355328,
        1389315537057605538,
        1777883566789543120,
    );
    lemma_join(
        187649984473770,
        1777883566789543120,
        562949953421312,
        1236195944141684822,
        1764762195221922132,
    );
    lemma_join(
        750599937895082,
        1764762195221922132,
        2251799813685248,
        1367449615347781359,
        1666146269762060579,
    );
    lemma_join(
        3002399751580330,
        1666146269762060579,
        9007199254740992,
        655204990766260670,
        796481924047603137,
    );
    lemma_join(
        12009599006321322,
        796481924047603137,
        36028797018963968,
        93335154568859392,
        2159224437699580815,
    );
    lemma_join(
        48038396025285290,
        2159224437699580815,
        144115188075855872,
        1945635272481320524,
        1600724798789556215,
    );
    lemma_join(
        192153584101141162,
        1600724798789556215,
        576460752303423488,
        1344516579535654772,
        1669582390241348315,
    );
}

/// The power of the generator whose exponent is `(m - 1) / 5`.
pub(crate) proof fn lemma_power_5()
    ensures
        pow_mod(generator(), 461168601842738790) == 725554454131936870,
{
    lemma_squares_0();
    lemma_squares_1();
    lemma_squares_2();
    lemma_squares_3();
    lemma_join(2, 1369, 4, 1874161, 2565726409);
    lemma_join(6, 2565726409, 32, 307828676072022436, 57684662309873168);
    lemma_join(38, 57684662309873168, 64, 1530484379699738889, 92200521201836915);
    lemma_join(102, 92200521201836915, 512, 1874702330417107273, 1285526102849879748);
    lemma_join(614, 1285526102849879748, 1024, 5986862548113618, 985893244345592266);
    lemma_join(1638, 985893244345592266, 8192, 649492471404925175, 774496163330691388);
    lemma_join(9830, 774496163330691388, 16384, 1106896147619454396, 2153848202027799961);
    lemma_join(26214, 2153848202027799961, 131072, 1416360387298873781, 442900674012648688);
    lemma_join(157286, 442900674012648688, 262144, 1564471842796986341, 1603459955069609960);
    lemma_join(419430, 1603459955069609960, 2097152, 1320279768446765050, 2046379078714698567);
    lemma_join(2516582, 2046379078714698567, 4194304, 1747983813596511721, 426225928886305857);
    lemma_join(6710886, 426225928886305857, 33554432, 1744025871715016688, 1976319293068622132);
    lemma_join(40265318, 1976319293068622132, 67108864, 73251981582425893, 1067724814112099242);
    lemma_join(107374182, 1067724814112099242, 536870912, 621132062226937276, 495084091208824077);
    lemma_join(644245094, 495084091208824077, 1073741824, 552523982103027780, 354488523461011054);
    lemma_join(1717986918, 354488523461011054, 8589934592, 711094314562858615, 1106528865201109023);
    lemma_join(
        10307921510, 1106528865201109023, 17179869184, 1622448854954581329, 1592424462823494453,
    );
    lemma_join(
        27487790694, 1592424462823494453, 137438953472, 1808678955228361916, 475171547733779859,
    );
    lemma_join(
        164926744166, 475171547733779859, 274877906944, 1904955967673210270, 740722046356123805,
    );
    lemma_join(
        439804651110, 740722046356123805, 2199023255552, 1189103440328413580, 879374564642549147,
    );
    lemma_join(
        2638827906662, 879374564642549147, 4398046511104, 1894874107849652993, 1324937114391066770,
    );
    lemma_join(
        7036874417766, 1324937114391066770, 35184372088832, 994841178892020975, 811762386642912707,
    );
    lemma_join(
        42221246506598, 811762386642912707, 70368744177664, 1365841398988935179, 437123442137237322,
    );
    lemma_join(
        112589990684262,
        437123442137237322,
        562949953421312,
        1236195944141684822,
        2079389339542563764,
    );
    lemma_join(
        675539944105574,
        2079389339542563764,
        1125899906842624,
        1927669204547316455,
        629618497200666380,
    );
    lemma_join(
        1801439850948198,
        629618497200666380,
        9007199254740992,
        655204990766260670,
        953474710001145152,
    );
    lemma_join(
        10808639105689190,
        953474710001145152,
        18014398509481984,
        617443249345278015,
        223547569593002926,
    );
    lemma_join(
        28823037615171174,
        223547569593002926,
        144115188075855872,
        1945635272481320524,
        2240318260791946769,
    );
    lemma_join(
        172938225691027046,
        2240318260791946769,
        288230376151711744,
        331539492389086583,
        725554454131936870,
    );
}

/// The power of the generator whose exponent is `(m - 1) / 7`.
pub(crate) proof fn lemma_power_7()
    ensures
        pow_mod(generator(), 329406144173384850) == 1165310750493918737,
{
    lemma_squares_0();
    lemma_squares_1();
    lemma_squares_2();
    lemma_squares_3();
    lemma_join(2, 1369, 16, 2048012909902302799, 2130417461614381366);
    lemma_join(18, 2130417461614381366, 128, 1671968728696755707, 2152298284617609383);
    lemma_join(146, 2152298284617609383, 1024, 5986862548113618, 1017010712830157597);
    lemma_join(1170, 1017010712830157597, 8192, 649492471404925175, 2043004164827987706);
    lemma_join(9362, 2043004164827987706, 65536, 1267668060077347163, 2210526432403221929);
    lemma_join(74898, 2210526432403221929, 524288, 735250336065844589, 1409204877215935722);
    lemma_join(599186, 1409204877215935722, 4194304, 1747983813596511721, 1813160678559705135);
    lemma_join(4793490, 1813160678559705135, 33554432, 1744025871715016688, 1399030843472832829);
    lemma_join(38347922, 1399030843472832829, 268435456, 92934223038987942, 240322821650746190);
    lemma_join(306783378, 240322821650746190, 2147483648, 1810209022387899939, 1440434973591732354);
    lemma_join(
        2454267026, 1440434973591732354, 17179869184, 1622448854954581329, 1025243051829880922,
    );
    lemma_join(
        19634136210, 1025243051829880922, 137438953472, 1808678955228361916, 2003652521244069712,
    );
    lemma_join(
        157073089682, 2003652521244069712, 1099511627776, 395654014531890260, 726651492048093752,
    );
    lemma_join(
        1256584717458, 726651492048093752, 8796093022208, 302423639519868408, 130218841906050226,
    );
    lemma_join(
        10052677739666,
        130218841906050226,
        70368744177664,
        1365841398988935179,
        2174886491362978632,
    );
    lemma_join(
        80421421917330,
        2174886491362978632,
        562949953421312,
        1236195944141684822,
        1802518786536779042,
    );
    lemma_join(
        643371375338642,
        1802518786536779042,
        4503599627370496,
        1879906979325824564,
        2042291364917644111,
    );
    lemma_join(
        5146971002709138,
        2042291364917644111,
        36028797018963968,
        93335154568859392,
        1886223071404137603,
    );
    lemma_join(
        41175768021673106,
        1886223071404137603,
        288230376151711744,
        331539492389086583,
        1165310750493918737,
    );
}

/// The power of the generator whose exponent is `(m - 1) / 11`.
pub(crate) proof fn lemma_power_11()
    ensures
        pow_mod(generator(), 209622091746699450) == 2266698407988980144,
{
    lemma_squares_0();
    lemma_squares_1();
    lemma_squares_2();
    lemma_squares_3();
    lemma_join(2, 1369, 8, 3512479453921, 4808584372417849);
    lemma_join(10, 4808584372417849, 16, 2048012909902302799, 1591872098300023439);
    lemma_join(26, 1591872098300023439, 32, 307828676072022436, 1126684292079557353);
    lemma_join(58, 1126684292079557353, 128, 1671968728696755707, 697523968445991094);
    lemma_join(186, 697523968445991094, 2048, 1820568710247692212, 410032106900261676);
    lemma_join(2234, 410032106900261676, 8192, 649492471404925175, 773470974620759227);
    lemma_join(10426, 773470974620759227, 16384, 1106896147619454396, 1423422773605394041);
    lemma_join(26810, 1423422773605394041, 32768, 1669740733653474757, 1592943745806128525);
    lemma_join(59578, 1592943745806128525, 131072, 1416360387298873781, 1271571176372171503);
    lemma_join(190650, 1271571176372171503, 2097152, 1320279768446765050, 1167237211376605207);
    lemma_join(2287802, 1167237211376605207, 8388608, 67869839423255989, 372548391179138856);
    lemma_join(10676410, 372548391179138856, 16777216, 2164827040180914092, 324225821181679062);
    lemma_join(27453626, 324225821181679062, 33554432, 1744025871715016688, 1082433403300567906);
    lemma_join(61008058, 1082433403300567906, 134217728, 277374673314010419, 1045216788358217664);
    lemma_join(
        195225786, 1045216788358217664, 2147483648, 1810209022387899939, 2162645768547769327,
    );
    lemma_join(2342709434, 2162645768547769327, 8589934592, 711094314562858615, 113169756483506603);
    lemma_join(
        10932644026, 113169756483506603, 17179869184, 1622448854954581329, 957732192162853281,
    );
    lemma_join(
        28112513210, 957732192162853281, 34359738368, 841055254665985916, 347965948477733480,
    );
    lemma_join(
        62472251578, 347965948477733480, 137438953472, 1808678955228361916, 681425966999145222,
    );
    lemma_join(
        199911205050, 681425966999145222, 2199023255552, 1189103440328413580, 1696416689832014144,
    );
    lemma_join(
        2398934460602, 1696416689832014144, 8796093022208, 302423639519868408, 1266100733585920584,
    );
    lemma_join(
        11195027482810, 1266100733585920584, 17592186044416, 512544735919841438, 90041435520672191,
    );
    lemma_join(
        28787213527226, 90041435520672191, 35184372088832, 994841178892020975, 900407247338950115,
    );
    lemma_join(
        63971585616058,
        900407247338950115,
        140737488355328,
        1389315537057605538,
        925417023639135397,
    );
    lemma_join(
        204709073971386,
        925417023639135397,
        2251799813685248,
        1367449615347781359,
        1218350996502574772,
    );
    lemma_join(
        2456508887656634,
        1218350996502574772,
        9007199254740992,
        655204990766260670,
        1915706909502347952,
    );
    lemma_join(
        11463708142397626,
        1915706909502347952,
        18014398509481984,
        617443249345278015,
        64062610882107409,
    );
    lemma_join(
        29478106651879610,
        64062610882107409,
        36028797018963968,
        93335154568859392,
        2243939974895098962,
    );
    lemma_join(
        65506903670843578,
        2243939974895098962,
        144115188075855872,
        1945635272481320524,
        2266698407988980144,
    );
}

/// The power of the generator whose exponent is `(m - 1) / 13`.
pub(crate) proof fn lemma_power_13()
    ensures
        pow_mod(generator(), 177372539170284150) == 1032504562576723207,
{
    lemma_squares_0();
    lemma_squares_1();
    lemma_squares_2();
    lemma_squares_3();
    lemma_join(2, 1369, 4, 1874161, 2565726409);
    lemma_join(6, 2565726409, 16, 2048012909902302799, 599911450064693199);
    lemma_join(22, 599911450064693199, 32, 307828676072022436, 1091349452027953358);
    lemma_join(54, 1091349452027953358, 64, 1530484379699738889, 1909085567989736374);
    lemma_join(118, 1909085567989736374, 512, 1874702330417107273, 2129910550479417964);
    lemma_join(630, 2129910550479417964, 8192, 649492471404925175, 1444726040466223555);
    lemma_join(8822, 1444726040466223555, 16384, 1106896147619454396, 843613468672178106);
    lemma_join(25206, 843613468672178106, 65536, 1267668060077347163, 1335130941253564222);
    lemma_join(90742, 1335130941253564222, 131072, 1416360387298873781, 1129633711666997358);
    lemma_join(221814, 1129633711666997358, 262144, 1564471842796986341, 1587911670474136118);
    lemma_join(483958, 1587911670474136118, 2097152, 1320279768446765050, 1854278429927242186);
    lemma_join(2581110, 1854278429927242186, 33554432, 1744025871715016688, 359163150792082672);
    lemma_join(36135542, 359163150792082672, 67108864, 73251981582425893, 390969595871429897);
    lemma_join(103244406, 390969595871429897, 268435456, 92934223038987942, 409827656528845504);
    lemma_join(371679862, 409827656528845504, 536870912, 621132062226937276, 1654912878085447542);
    lemma_join(908550774, 1654912878085447542, 1073741824, 552523982103027780, 2193289638916219336);
    lemma_join(
        1982292598, 2193289638916219336, 8589934592, 711094314562858615, 1313607248510892221,
    );
    lemma_join(
        10572227190, 1313607248510892221, 137438953472, 1808678955228361916, 1418285932837743215,
    );
    lemma_join(
        148011180662, 1418285932837743215, 274877906944, 1904955967673210270, 900730908656331837,
    );
    lemma_join(
        422889087606, 900730908656331837, 1099511627776, 395654014531890260, 1685273400976458562,
    );
    lemma_join(
        1522400715382, 1685273400976458562, 2199023255552, 1189103440328413580, 1581672818200300705,
    );
    lemma_join(
        3721423970934, 1581672818200300705, 4398046511104, 1894874107849652993, 1290159393556596545,
    );
    lemma_join(
        8119470482038, 1290159393556596545, 35184372088832, 994841178892020975, 1563811603622147650,
    );
    lemma_join(
        43303842570870,
        1563811603622147650,
        562949953421312,
        1236195944141684822,
        2005827445578151804,
    );
    lemma_join(
        606253795992182,
        2005827445578151804,
        1125899906842624,
        1927669204547316455,
        277151496053719496,
    );
    lemma_join(
        1732153702834806,
        277151496053719496,
        4503599627370496,
        1879906979325824564,
        274130364222445057,
    );
    lemma_join(
        6235753330205302,
        274130364222445057,
        9007199254740992,
        655204990766260670,
        59276008971790815,
    );
    lemma_join(
        15242952584946294,
        59276008971790815,
        18014398509481984,
        617443249345278015,
        91132838437848092,
    );
    lemma_join(
        33257351094428278,
        91132838437848092,
        144115188075855872,
        1945635272481320524,
        1032504562576723207,
    );
}

/// The power of the generator whose exponent is `(m - 1) / 31`.
pub(crate) proof fn lemma_power_31()
    ensures
        pow_mod(generator(), 74382032555280450) == 484083891529811867,
{
    lemma_squares_0();
    lemma_squares_1();
    lemma_squares_2();
    lemma_squares_3();
    lemma_join(2, 1369, 64, 1530484379699738889, 1527663442908431533);
    lemma_join(66, 1527663442908431533, 2048, 1820568710247692212, 383777470768767572);
    lemma_join(2114, 383777470768767572, 65536, 1267668060077347163, 105149161975553391);
    lemma_join(67650, 105149161975553391, 2097152, 1320279768446765050, 207481386931969857);
    lemma_join(2164802, 207481386931969857, 67108864, 73251981582425893, 772502744357113388);
    lemma_join(69273666, 772502744357113388, 2147483648, 1810209022387899939, 293109258917679546);
    lemma_join(
        2216757314, 293109258917679546, 68719476736, 697959595997859570, 1202692236257763325,
    );
    lemma_join(
        70936234050, 1202692236257763325, 2199023255552, 1189103440328413580, 344447306660207322,
    );
    lemma_join(
        2269959489602, 344447306660207322, 70368744177664, 1365841398988935179, 789523400171074996,
    );
    lemma_join(
        72638703667266,
        789523400171074996,
        2251799813685248,
        1367449615347781359,
        1874007843370815560,
    );
    lemma_join(
        2324438517352514,
        1874007843370815560,
        72057594037927936,
        1979613501565108617,
        484083891529811867,
    );
}

/// The power of the generator whose exponent is `(m - 1) / 41`.
pub(crate) proof fn lemma_power_41()
    ensures
        pow_mod(generator(), 56240073395455950) == 1562651311446036838,
{
    lemma_squares_0();
    lemma_squares_1();
    lemma_squares_2();
    lemma_squares_3();
    lemma_join(2, 1369, 4, 1874161, 2565726409);
    lemma_join(6, 2565726409, 8, 3512479453921, 826815987892339181);
    lemma_join(14, 826815987892339181, 64, 1530484379699738889, 1833824407774758982);
    lemma_join(78, 1833824407774758982, 128, 1671968728696755707, 556391699408490751);
    lemma_join(206, 556391699408490751, 256, 649718369440752735, 2106191789590599397);
    lemma_join(462, 2106191789590599397, 512, 1874702330417107273, 564532745743208807);
    lemma_join(974, 564532745743208807, 1024, 5986862548113618, 581690973942025986);
    lemma_join(1998, 581690973942025986, 16384, 1106896147619454396, 471737314768529170);
    lemma_join(18382, 471737314768529170, 32768, 1669740733653474757, 1694490217473059922);
    lemma_join(51150, 1694490217473059922, 2097152, 1320279768446765050, 2214135039094925244);
    lemma_join(2148302, 2214135039094925244, 4194304, 1747983813596511721, 1010816045767771505);
    lemma_join(6342606, 1010816045767771505, 8388608, 67869839423255989, 1228780440254238351);
    lemma_join(14731214, 1228780440254238351, 67108864, 73251981582425893, 1956763848441898411);
    lemma_join(81840078, 1956763848441898411, 134217728, 277374673314010419, 592303546355957511);
    lemma_join(216057806, 592303546355957511, 268435456, 92934223038987942, 1764450822484313883);
    lemma_join(484493262, 1764450822484313883, 536870912, 621132062226937276, 1533500621362297769);
    lemma_join(1021364174, 1533500621362297769, 1073741824, 552523982103027780, 473207531058048325);
    lemma_join(
        2095105998, 473207531058048325, 17179869184, 1622448854954581329, 791906884578949359,
    );
    lemma_join(
        19274975182, 791906884578949359, 34359738368, 841055254665985916, 408742850539445589,
    );
    lemma_join(
        53634713550, 408742850539445589, 2199023255552, 1189103440328413580, 667436088914918161,
    );
    lemma_join(
        2252657969102, 667436088914918161, 4398046511104, 1894874107849652993, 1187170938199486684,
    );
    lemma_join(
        6650704480206, 1187170938199486684, 8796093022208, 302423639519868408, 1927480277036426156,
    );
    lemma_join(
        15446797502414,
        1927480277036426156,
        70368744177664,
        1365841398988935179,
        1972998581165427658,
    );
    lemma_join(
        85815541680078,
        1972998581165427658,
        140737488355328,
        1389315537057605538,
        152902783504889433,
    );
    lemma_join(
        226553030035406,
        152902783504889433,
        281474976710656,
        1620384436148347606,
        624275792862013411,
    );
    lemma_join(
        508028006746062,
        624275792862013411,
        562949953421312,
        1236195944141684822,
        347585654904911785,
    );
    lemma_join(
        1070977960167374,
        347585654904911785,
        1125899906842624,
        1927669204547316455,
        1244747674646477779,
    );
    lemma_join(
        2196877867009998,
        1244747674646477779,
        18014398509481984,
        617443249345278015,
        1234250654270295686,
    );
    lemma_join(
        20211276376491982,
        1234250654270295686,
        36028797018963968,
        93335154568859392,
        1562651311446036838,
    );
}

/// The power of the generator whose exponent is `(m - 1) / 61`.
pub(crate) proof fn lemma_power_61()
    ensures
        pow_mod(generator(), 37800705069076950) == 35184372088832,
{
    lemma_squares_0();
    lemma_squares_1();
    lemma_squares_2();
    lemma_squares_3();
    lemma_join(2, 1369, 4, 1874161, 2565726409);
    lemma_join(6, 2565726409, 16, 2048012909902302799, 599911450064693199);
    lemma_join(22, 599911450064693199, 64, 1530484379699738889, 667277409524002060);
    lemma_join(86, 667277409524002060, 128, 1671968728696755707, 1959985561367859069);
    lemma_join(214, 1959985561367859069, 256, 649718369440752735, 1343515726774378343);
    lemma_join(470, 1343515726774378343, 4096, 404534779322076428, 656295223764184147);
    lemma_join(4566, 656295223764184147, 16384, 1106896147619454396, 2114340238842570760);
    lemma_join(20950, 2114340238842570760, 32768, 1669740733653474757, 2172775062114915837);
    lemma_join(53718, 2172775062114915837, 131072, 1416360387298873781, 740648307853614961);
    lemma_join(184790, 740648307853614961, 262144, 1564471842796986341, 2157897293943294161);
    lemma_join(446934, 2157897293943294161, 2097152, 1320279768446765050, 873036954547835571);
    lemma_join(2544086, 873036954547835571, 4194304, 1747983813596511721, 1006152432302678382);
    lemma_join(6738390, 1006152432302678382, 8388608, 67869839423255989, 1379814070211514848);
    lemma_join(15126998, 1379814070211514848, 16777216, 2164827040180914092, 1512981960342215391);
    lemma_join(31904214, 1512981960342215391, 67108864, 73251981582425893, 1032967407543499584);
    lemma_join(99013078, 1032967407543499584, 134217728, 277374673314010419, 870714888578255038);
    lemma_join(233230806, 870714888578255038, 268435456, 92934223038987942, 2130731089583411519);
    lemma_join(501666262, 2130731089583411519, 536870912, 621132062226937276, 2057762452460281693);
    lemma_join(1038537174, 2057762452460281693, 1073741824, 552523982103027780, 996135644783289731);
    lemma_join(2112278998, 996135644783289731, 8589934592, 711094314562858615, 2067765759301859896);
    lemma_join(
        10702213590, 2067765759301859896, 34359738368, 841055254665985916, 1306177297803207315,
    );
    lemma_join(
        45061951958, 1306177297803207315, 549755813888, 1826762296907946662, 1520601798470125097,
    );
    lemma_join(
        594817765846, 1520601798470125097, 1099511627776, 395654014531890260, 689785477898067838,
    );
    lemma_join(
        1694329393622, 689785477898067838, 2199023255552, 1189103440328413580, 76275593014220084,
    );
    lemma_join(
        3893352649174, 76275593014220084, 8796093022208, 302423639519868408, 367332631827724662,
    );
    lemma_join(
        12689445671382,
        367332631827724662,
        70368744177664,
        1365841398988935179,
        1900575679240290306,
    );
    lemma_join(
        83058189849046,
        1900575679240290306,
        562949953421312,
        1236195944141684822,
        1344429002430297912,
    );
    lemma_join(
        646008143270358,
        1344429002430297912,
        1125899906842624,
        1927669204547316455,
        634958472030472838,
    );
    lemma_join(
        1771908050112982, 634958472030472838, 36028797018963968, 93335154568859392, 35184372088832,
    );
}

/// The power of the generator whose exponent is `(m - 1) / 151`.
pub(crate) proof fn lemma_power_151()
    ensures
        pow_mod(generator(), 15270483504726450) == 1433721343585656393,
{
    lemma_squares_0();
    lemma_squares_1();
    lemma_squares_2();
    lemma_squares_3();
    lemma_join(2, 1369, 16, 2048012909902302799, 2130417461614381366);
    lemma_join(18, 2130417461614381366, 32, 307828676072022436, 249845630697408639);
    lemma_join(50, 249845630697408639, 128, 1671968728696755707, 392527508777590087);
    lemma_join(178, 392527508777590087, 256, 649718369440752735, 385245501143562693);
    lemma_join(434, 385245501143562693, 65536, 1267668060077347163, 307219658801009643);
    lemma_join(65970, 307219658801009643, 524288, 735250336065844589, 1161788481898587841);
    lemma_join(590258, 1161788481898587841, 1048576, 1488752000173493138, 648866077819329632);
    lemma_join(1638834, 648866077819329632, 4194304, 1747983813596511721, 1314989024157789811);
    lemma_join(5833138, 1314989024157789811, 8388608, 67869839423255989, 1720169769625558843);
    lemma_join(14221746, 1720169769625558843, 2147483648, 1810209022387899939, 2295546662943157962);
    lemma_join(
        2161705394, 2295546662943157962, 17179869184, 1622448854954581329, 814358361345343254,
    );
    lemma_join(
        19341574578, 814358361345343254, 34359738368, 841055254665985916, 2048789863113882943,
    );
    lemma_join(
        53701312946, 2048789863113882943, 137438953472, 1808678955228361916, 1416427980868004806,
    );
    lemma_join(
        191140266418, 1416427980868004806, 274877906944, 1904955967673210270, 1105655107239133538,
    );
    lemma_join(
        466018173362, 1105655107239133538, 70368744177664, 1365841398988935179, 465128821528713895,
    );
    lemma_join(
        70834762351026,
        465128821528713895,
        562949953421312,
        1236195944141684822,
        1958118171836596154,
    );
    lemma_join(
        633784715772338,
        1958118171836596154,
        1125899906842624,
        1927669204547316455,
        2209437298017904873,
    );
    lemma_join(
        1759684622614962,
        2209437298017904873,
        4503599627370496,
        1879906979325824564,
        284650970355528153,
    );
    lemma_join(
        6263284249985458,
        284650970355528153,
        9007199254740992,
        655204990766260670,
        1433721343585656393,
    );
}

/// The power of the generator whose exponent is `(m - 1) / 331`.
pub(crate) proof fn lemma_power_331()
    ensures
        pow_mod(generator(), 6966293079195450) == 185945230422323302,
{
    lemma_squares_0();
    lemma_squares_1();
    lemma_squares_2();
    lemma_squares_3();
    lemma_join(2, 1369, 8, 3512479453921, 4808584372417849);
    lemma_join(10, 4808584372417849, 16, 2048012909902302799, 1591872098300023439);
    lemma_join(26, 1591872098300023439, 32, 307828676072022436, 1126684292079557353);
    lemma_join(58, 1126684292079557353, 256, 649718369440752735, 224577215945232048);
    lemma_join(314, 224577215945232048, 512, 1874702330417107273, 887359373644920795);
    lemma_join(826, 887359373644920795, 1024, 5986862548113618, 1544616741309869210);
    lemma_join(1850, 1544616741309869210, 2048, 1820568710247692212, 1580623574009323743);
    lemma_join(3898, 1580623574009323743, 4096, 404534779322076428, 2176375481315125233);
    lemma_join(7994, 2176375481315125233, 8192, 649492471404925175, 553669058761854853);
    lemma_join(16186, 553669058761854853, 16384, 1106896147619454396, 727568339485828514);
    lemma_join(32570, 727568339485828514, 32768, 1669740733653474757, 1973984550836539065);
    lemma_join(65338, 1973984550836539065, 131072, 1416360387298873781, 1720615665876457081);
    lemma_join(196410, 1720615665876457081, 2097152, 1320279768446765050, 1388294078793050986);
    lemma_join(2293562, 1388294078793050986, 4194304, 1747983813596511721, 887286010314584401);
    lemma_join(6487866, 887286010314584401, 2147483648, 1810209022387899939, 537294230984100568);
    lemma_join(2153971514, 537294230984100568, 8589934592, 711094314562858615, 632480171105578174);
    lemma_join(
        10743906106, 632480171105578174, 17179869184, 1622448854954581329, 367049661777096828,
    );
    lemma_join(
        27923775290, 367049661777096828, 34359738368, 841055254665985916, 1921384202472941375,
    );
    lemma_join(
        62283513658, 1921384202472941375, 274877906944, 1904955967673210270, 1242692106502625986,
    );
    lemma_join(
        337161420602, 1242692106502625986, 549755813888, 1826762296907946662, 829435589309402680,
    );
    lemma_join(
        886917234490, 829435589309402680, 1099511627776, 395654014531890260, 189165604016759706,
    );
    lemma_join(
        1986428862266, 189165604016759706, 2199023255552, 1189103440328413580, 2221296080367380232,
    );
    lemma_join(
        4185452117818, 2221296080367380232, 4398046511104, 1894874107849652993, 852650807516129592,
    );
    lemma_join(
        8583498628922, 852650807516129592, 8796093022208, 302423639519868408, 1820399089302464761,
    );
    lemma_join(
        17379591651130, 1820399089302464761, 17592186044416, 512544735919841438, 261176380092552325,
    );
    lemma_join(
        34971777695546, 261176380092552325, 35184372088832, 994841178892020975, 1105878798751416266,
    );
    lemma_join(
        70156149784378,
        1105878798751416266,
        140737488355328,
        1389315537057605538,
        932172981568384550,
    );
    lemma_join(
        210893638139706,
        932172981568384550,
        2251799813685248,
        1367449615347781359,
        1344828471283344800,
    );
    lemma_join(
        2462693451824954,
        1344828471283344800,
        4503599627370496,
        1879906979325824564,
        185945230422323302,
    );
}

/// The power of the generator whose exponent is `(m - 1) / 1321`.
pub(crate) proof fn lemma_power_1321()
    ensures
        pow_mod(generator(), 1745528394559950) == 30210013857155493,
{
    lemma_squares_0();
    lemma_squares_1();
    lemma_squares_2();
    lemma_squares_3();
    lemma_join(2, 1369, 4, 1874161, 2565726409);
    lemma_join(6, 2565726409, 8, 3512479453921, 826815987892339181);
    lemma_join(14, 826815987892339181, 64, 1530484379699738889, 1833824407774758982);
    lemma_join(78, 1833824407774758982, 128, 1671968728696755707, 556391699408490751);
    lemma_join(206, 556391699408490751, 256, 649718369440752735, 2106191789590599397);
    lemma_join(462, 2106191789590599397, 4096, 404534779322076428, 464600954618157359);
    lemma_join(4558, 464600954618157359, 8192, 649492471404925175, 221226452411025323);
    lemma_join(12750, 221226452411025323, 65536, 1267668060077347163, 2211114583176025017);
    lemma_join(78286, 2211114583176025017, 131072, 1416360387298873781, 2009660494449564144);
    lemma_join(209358, 2009660494449564144, 262144, 1564471842796986341, 142217442796769785);
    lemma_join(471502, 142217442796769785, 2097152, 1320279768446765050, 398221275092004434);
    lemma_join(2568654, 398221275092004434, 4194304, 1747983813596511721, 1968330314576340589);
    lemma_join(6762958, 1968330314576340589, 8388608, 67869839423255989, 1330759880958988198);
    lemma_join(15151566, 1330759880958988198, 16777216, 2164827040180914092, 1736964179067542995);
    lemma_join(31928782, 1736964179067542995, 33554432, 1744025871715016688, 36873678529172721);
    lemma_join(65483214, 36873678529172721, 67108864, 73251981582425893, 1901933387518592636);
    lemma_join(132592078, 1901933387518592636, 134217728, 277374673314010419, 1709811750032571364);
    lemma_join(266809806, 1709811750032571364, 268435456, 92934223038987942, 539579304985060697);
    lemma_join(535245262, 539579304985060697, 536870912, 621132062226937276, 1083692339479703106);
    lemma_join(
        1072116174, 1083692339479703106, 1073741824, 552523982103027780, 1895803512223422501,
    );
    lemma_join(
        2145857998, 1895803512223422501, 17179869184, 1622448854954581329, 2181874929684966907,
    );
    lemma_join(
        19325727182, 2181874929684966907, 34359738368, 841055254665985916, 2026845827230432054,
    );
    lemma_join(
        53685465550, 2026845827230432054, 549755813888, 1826762296907946662, 69868381773907631,
    );
    lemma_join(
        603441279438, 69868381773907631, 1099511627776, 395654014531890260, 1668670844700376926,
    );
    lemma_join(
        1702952907214, 1668670844700376926, 2199023255552, 1189103440328413580, 1903516142379155329,
    );
    lemma_join(
        3901976162766, 1903516142379155329, 17592186044416, 512544735919841438, 23715402992083512,
    );
    lemma_join(
        21494162207182, 23715402992083512, 35184372088832, 994841178892020975, 1490569835919709067,
    );
    lemma_join(
        56678534296014,
        1490569835919709067,
        562949953421312,
        1236195944141684822,
        107019941880098686,
    );
    lemma_join(
        619628487717326,
        107019941880098686,
        1125899906842624,
        1927669204547316455,
        30210013857155493,
    );
}

} // verus!

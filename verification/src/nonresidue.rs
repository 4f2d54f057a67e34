//! The least quadratic non-residue of the field is five: raised to half
//! the order of the multiplicative group, two and three give one and five
//! gives minus one. Each power is taken by squaring, bit by bit of the
//! exponent from the highest, and every remainder on the way is written
//! down.

use crate::field::{euler_power, modulus};
use vstd::arithmetic::div_mod::{lemma_mul_mod_noop, lemma_mul_mod_noop_left, lemma_small_mod};
use vstd::arithmetic::power::{
    lemma1_pow, lemma_pow0, lemma_pow1, lemma_pow_adds, lemma_pow_distributes, pow,
};
use vstd::prelude::*;

verus! {

/// One bit of the exponent: from the remainder `c` of the power with
/// exponent `p` to the remainder `next` of the power with exponent
/// `2 p + bit`, which is the square of `c` times `factor`, the base for a
/// set bit and one for a clear bit.
proof fn lemma_ladder(g: int, p: nat, c: int, bit: nat, factor: int, next: int)
    requires
        pow(g, p) % modulus() == c,
        bit <= 1,
        factor == (if bit == 1 {
            g
        } else {
            1
        }),
        next == (c * c * factor) % modulus(),
    ensures
        pow(g, 2 * p + bit) % modulus() == next,
{
    let m: int = modulus();
    let square: int = pow(g, 2 * p);
    lemma_pow_adds(g, p, p);
    lemma_mul_mod_noop(pow(g, p), pow(g, p), m);
    assert(square % m == (c * c) % m);
    if bit == 1 {
        lemma_pow_adds(g, 2 * p, 1);
        lemma_pow1(g);
        lemma_mul_mod_noop_left(square, g, m);
        lemma_mul_mod_noop_left(c * c, g, m);
    } else {
        assert(c * c * 1 == c * c);
    }
}

/// The power of two after 23 bits of the exponent.
proof fn lemma_power_of_two_0()
    ensures
        pow(2, 6342812nat) % modulus() == 8675357500572800724261214131358968136933528960890047256821283343805298127096int,
{
    lemma_pow0(2);
    lemma_small_mod(1, modulus() as nat);
    let e0: nat = 0nat;
    let e1: nat = 2 * e0 + 1;
    lemma_ladder(
        2,
        e0,
        1int,
        1,
        2,
        2int,
    );
    let e2: nat = 2 * e1 + 1;
    lemma_ladder(
        2,
        e1,
        2int,
        1,
        2,
        8int,
    );
    let e3: nat = 2 * e2 + 0;
    lemma_ladder(
        2,
        e2,
        8int,
        0,
        1,
        64int,
    );
    let e4: nat = 2 * e3 + 0;
    lemma_ladder(
        2,
        e3,
        64int,
        0,
        1,
        4096int,
    );
    let e5: nat = 2 * e4 + 0;
    lemma_ladder(
        2,
        e4,
        4096int,
        0,
        1,
        16777216int,
    );
    let e6: nat = 2 * e5 + 0;
    lemma_ladder(
        2,
        e5,
        16777216int,
        0,
        1,
        281474976710656int,
    );
    let e7: nat = 2 * e6 + 0;
    lemma_ladder(
        2,
        e6,
        281474976710656int,
        0,
        1,
        79228162514264337593543950336int,
    );
    let e8: nat = 2 * e7 + 1;
    lemma_ladder(
        2,
        e7,
        79228162514264337593543950336int,
        1,
        2,
        12554203470773361527671578846415332832204710888928069025792int,
    );
    let e9: nat = 2 * e8 + 1;
    lemma_ladder(
        2,
        e8,
        12554203470773361527671578846415332832204710888928069025792int,
        1,
        2,
        13873384799220090226865923838859985799376873702572523186650131134495217677768int,
    );
    let e10: nat = 2 * e9 + 0;
    lemma_ladder(
        2,
        e9,
        13873384799220090226865923838859985799376873702572523186650131134495217677768int,
        0,
        1,
        3358978119138415781164374141201985600525363949969598895158693736819143479279int,
    );
    let e11: nat = 2 * e10 + 0;
    lemma_ladder(
        2,
        e10,
        3358978119138415781164374141201985600525363949969598895158693736819143479279int,
        0,
        1,
        21418674697578983643010601659172219181376046539567917822951538816950606543243int,
    );
    let e12: nat = 2 * e11 + 1;
    lemma_ladder(
        2,
        e11,
        21418674697578983643010601659172219181376046539567917822951538816950606543243int,
        1,
        2,
        11330326802389089018547167874987376800219415271734500433649316985365410572926int,
    );
    let e13: nat = 2 * e12 + 0;
    lemma_ladder(
        2,
        e12,
        11330326802389089018547167874987376800219415271734500433649316985365410572926int,
        0,
        1,
        14273902523332136769873700239098273748858901753027430812536210435541298349272int,
    );
    let e14: nat = 2 * e13 + 0;
    lemma_ladder(
        2,
        e13,
        14273902523332136769873700239098273748858901753027430812536210435541298349272int,
        0,
        1,
        8955988781158394026615670694253343486774986614005316490808620110167549028267int,
    );
    let e15: nat = 2 * e14 + 0;
    lemma_ladder(
        2,
        e14,
        8955988781158394026615670694253343486774986614005316490808620110167549028267int,
        0,
        1,
        16066504036460506487931524001309337856399229552634175454638423691115654760975int,
    );
    let e16: nat = 2 * e15 + 1;
    lemma_ladder(
        2,
        e15,
        16066504036460506487931524001309337856399229552634175454638423691115654760975int,
        1,
        2,
        13359113095520542227717919613344145760510288851291491237934432332178540228020int,
    );
    let e17: nat = 2 * e16 + 0;
    lemma_ladder(
        2,
        e16,
        13359113095520542227717919613344145760510288851291491237934432332178540228020int,
        0,
        1,
        6430017871359809199311453660676438423294656410869302814357446492230563615910int,
    );
    let e18: nat = 2 * e17 + 0;
    lemma_ladder(
        2,
        e17,
        6430017871359809199311453660676438423294656410869302814357446492230563615910int,
        0,
        1,
        14202828228511963578547472068187713495514514151691649925114265752104930057704int,
    );
    let e19: nat = 2 * e18 + 1;
    lemma_ladder(
        2,
        e18,
        14202828228511963578547472068187713495514514151691649925114265752104930057704int,
        1,
        2,
        12895142348223160074026626614402359629175020249413084366943547743384164283309int,
    );
    let e20: nat = 2 * e19 + 1;
    lemma_ladder(
        2,
        e19,
        12895142348223160074026626614402359629175020249413084366943547743384164283309int,
        1,
        2,
        17128344725874938236662828539353413096878370088089622831666082231382992776109int,
    );
    let e21: nat = 2 * e20 + 1;
    lemma_ladder(
        2,
        e20,
        17128344725874938236662828539353413096878370088089622831666082231382992776109int,
        1,
        2,
        19676308674694859897068927011789983008417522334201635171915284533322332898012int,
    );
    let e22: nat = 2 * e21 + 0;
    lemma_ladder(
        2,
        e21,
        19676308674694859897068927011789983008417522334201635171915284533322332898012int,
        0,
        1,
        21414730082813131366401031764378650386058912856603730963703185920747716638438int,
    );
    let e23: nat = 2 * e22 + 0;
    lemma_ladder(
        2,
        e22,
        21414730082813131366401031764378650386058912856603730963703185920747716638438int,
        0,
        1,
        8675357500572800724261214131358968136933528960890047256821283343805298127096int,
    );
}

/// The power of two after 46 bits of the exponent.
proof fn lemma_power_of_two_1()
    ensures
        pow(2, 53207371014449nat) % modulus() == 9940834951476906450874779777928951404069898062388430160990359908380745072664int,
{
    lemma_power_of_two_0();
    let e0: nat = 6342812nat;
    let e1: nat = 2 * e0 + 1;
    lemma_ladder(
        2,
        e0,
        8675357500572800724261214131358968136933528960890047256821283343805298127096int,
        1,
        2,
        9887378249358736898520286148624819794356404748521031300563221488892549430668int,
    );
    let e2: nat = 2 * e1 + 1;
    lemma_ladder(
        2,
        e1,
        9887378249358736898520286148624819794356404748521031300563221488892549430668int,
        1,
        2,
        19563395497036366406701826406210289037503797383239036379062566566913456767159int,
    );
    let e3: nat = 2 * e2 + 1;
    lemma_ladder(
        2,
        e2,
        19563395497036366406701826406210289037503797383239036379062566566913456767159int,
        1,
        2,
        15462835353969768989290948277282973364999105582496582237364644348325237122044int,
    );
    let e4: nat = 2 * e3 + 0;
    lemma_ladder(
        2,
        e3,
        15462835353969768989290948277282973364999105582496582237364644348325237122044int,
        0,
        1,
        2387838869410138069418200534996481719047443940741753030389347097371798118948int,
    );
    let e5: nat = 2 * e4 + 0;
    lemma_ladder(
        2,
        e4,
        2387838869410138069418200534996481719047443940741753030389347097371798118948int,
        0,
        1,
        13502967194935572062980748559610394387324906665799064919152142070045588138734int,
    );
    let e6: nat = 2 * e5 + 1;
    lemma_ladder(
        2,
        e5,
        13502967194935572062980748559610394387324906665799064919152142070045588138734int,
        1,
        2,
        13498037412713025457396952228279807839352174140748026094247651275349569150895int,
    );
    let e7: nat = 2 * e6 + 0;
    lemma_ladder(
        2,
        e6,
        13498037412713025457396952228279807839352174140748026094247651275349569150895int,
        0,
        1,
        5357483371885799994652339058023731938732621507996838723950665953114759448284int,
    );
    let e8: nat = 2 * e7 + 1;
    lemma_ladder(
        2,
        e7,
        5357483371885799994652339058023731938732621507996838723950665953114759448284int,
        1,
        2,
        2735786131383750144460204767083753890756699371814813318709013871573857373088int,
    );
    let e9: nat = 2 * e8 + 1;
    lemma_ladder(
        2,
        e8,
        2735786131383750144460204767083753890756699371814813318709013871573857373088int,
        1,
        2,
        6977261876990857112814664791984675277553951426247728834469490698829085370165int,
    );
    let e10: nat = 2 * e9 + 1;
    lemma_ladder(
        2,
        e9,
        6977261876990857112814664791984675277553951426247728834469490698829085370165int,
        1,
        2,
        14819421805154293715537361303036398520095360894611748528088008786515783608590int,
    );
    let e11: nat = 2 * e10 + 0;
    lemma_ladder(
        2,
        e10,
        14819421805154293715537361303036398520095360894611748528088008786515783608590int,
        0,
        1,
        17300133813764282683175693180054617398780825396446267913249842843171518803987int,
    );
    let e12: nat = 2 * e11 + 0;
    lemma_ladder(
        2,
        e11,
        17300133813764282683175693180054617398780825396446267913249842843171518803987int,
        0,
        1,
        6995984309503771963588833703007658903905641170251115815482893135805869868213int,
    );
    let e13: nat = 2 * e12 + 0;
    lemma_ladder(
        2,
        e12,
        6995984309503771963588833703007658903905641170251115815482893135805869868213int,
        0,
        1,
        9256056145842012303500315293963366026208748119202803450097170306942523541395int,
    );
    let e14: nat = 2 * e13 + 0;
    lemma_ladder(
        2,
        e13,
        9256056145842012303500315293963366026208748119202803450097170306942523541395int,
        0,
        1,
        8691250840977210465978704345510608123426232800380374437425291965362348016286int,
    );
    let e15: nat = 2 * e14 + 1;
    lemma_ladder(
        2,
        e14,
        8691250840977210465978704345510608123426232800380374437425291965362348016286int,
        1,
        2,
        12102411061057815138602022003822273416298442320595846447354638897009401927254int,
    );
    let e16: nat = 2 * e15 + 0;
    lemma_ladder(
        2,
        e15,
        12102411061057815138602022003822273416298442320595846447354638897009401927254int,
        0,
        1,
        16899419043449824895583019105093097127272955077469887530286826151817488973784int,
    );
    let e17: nat = 2 * e16 + 0;
    lemma_ladder(
        2,
        e16,
        16899419043449824895583019105093097127272955077469887530286826151817488973784int,
        0,
        1,
        7968574400050310278793058239771863945886926015935946821438887117045322613457int,
    );
    let e18: nat = 2 * e17 + 1;
    lemma_ladder(
        2,
        e17,
        7968574400050310278793058239771863945886926015935946821438887117045322613457int,
        1,
        2,
        7892949353775287235707139168866875629590453480032461602938049762610504096347int,
    );
    let e19: nat = 2 * e18 + 1;
    lemma_ladder(
        2,
        e18,
        7892949353775287235707139168866875629590453480032461602938049762610504096347int,
        1,
        2,
        8973840906095197026539539659964817963263268179098794321433390714230822220715int,
    );
    let e20: nat = 2 * e19 + 0;
    lemma_ladder(
        2,
        e19,
        8973840906095197026539539659964817963263268179098794321433390714230822220715int,
        0,
        1,
        7701459892589178226461211319709602016243938928046311075126634920907269631855int,
    );
    let e21: nat = 2 * e20 + 0;
    lemma_ladder(
        2,
        e20,
        7701459892589178226461211319709602016243938928046311075126634920907269631855int,
        0,
        1,
        17204524318271413225231732730631299738890994740583424567113273947828793192185int,
    );
    let e22: nat = 2 * e21 + 0;
    lemma_ladder(
        2,
        e21,
        17204524318271413225231732730631299738890994740583424567113273947828793192185int,
        0,
        1,
        17457043193541870603175863593572480873402940432585492051649291306996503346539int,
    );
    let e23: nat = 2 * e22 + 1;
    lemma_ladder(
        2,
        e22,
        17457043193541870603175863593572480873402940432585492051649291306996503346539int,
        1,
        2,
        9940834951476906450874779777928951404069898062388430160990359908380745072664int,
    );
}

/// The power of two after 69 bits of the exponent.
proof fn lemma_power_of_two_2()
    ensures
        pow(2, 446335778150780245212nat) % modulus() == 3561931188711369342847211802135894997002339378992420267422654287529512972754int,
{
    lemma_power_of_two_1();
    let e0: nat = 53207371014449nat;
    let e1: nat = 2 * e0 + 1;
    lemma_ladder(
        2,
        e0,
        9940834951476906450874779777928951404069898062388430160990359908380745072664int,
        1,
        2,
        9827266079434138025557632922650313646884990230088244088987735115171847458680int,
    );
    let e2: nat = 2 * e1 + 0;
    lemma_ladder(
        2,
        e1,
        9827266079434138025557632922650313646884990230088244088987735115171847458680int,
        0,
        1,
        21307540089177309556407393523158675456476300926562611574823985723856255010815int,
    );
    let e3: nat = 2 * e2 + 1;
    lemma_ladder(
        2,
        e2,
        21307540089177309556407393523158675456476300926562611574823985723856255010815int,
        1,
        2,
        21324944838373339337225096446310451195003297853663700960452105917682053688982int,
    );
    let e4: nat = 2 * e3 + 0;
    lemma_ladder(
        2,
        e3,
        21324944838373339337225096446310451195003297853663700960452105917682053688982int,
        0,
        1,
        4221771393310364185637771803685611482319774197624303809432482600648858489725int,
    );
    let e5: nat = 2 * e4 + 0;
    lemma_ladder(
        2,
        e4,
        4221771393310364185637771803685611482319774197624303809432482600648858489725int,
        0,
        1,
        484965382096073521836932417233471561976919385998398069360472134024947515750int,
    );
    let e6: nat = 2 * e5 + 0;
    lemma_ladder(
        2,
        e5,
        484965382096073521836932417233471561976919385998398069360472134024947515750int,
        0,
        1,
        3201342798646758386764862338575501786020691768061672977862037031345878179907int,
    );
    let e7: nat = 2 * e6 + 0;
    lemma_ladder(
        2,
        e6,
        3201342798646758386764862338575501786020691768061672977862037031345878179907int,
        0,
        1,
        4076181890251594878532831896906518872811503564614559234081313708514236026365int,
    );
    let e8: nat = 2 * e7 + 0;
    lemma_ladder(
        2,
        e7,
        4076181890251594878532831896906518872811503564614559234081313708514236026365int,
        0,
        1,
        14900336362888059270146832203975384786758191178150320111884464572987280860750int,
    );
    let e9: nat = 2 * e8 + 0;
    lemma_ladder(
        2,
        e8,
        14900336362888059270146832203975384786758191178150320111884464572987280860750int,
        0,
        1,
        20104534443520636650684889183349078732766711064245453422778486374499115152515int,
    );
    let e10: nat = 2 * e9 + 0;
    lemma_ladder(
        2,
        e9,
        20104534443520636650684889183349078732766711064245453422778486374499115152515int,
        0,
        1,
        8863093246779089330675051505121573836713287116326588546262341514925912270400int,
    );
    let e11: nat = 2 * e10 + 1;
    lemma_ladder(
        2,
        e10,
        8863093246779089330675051505121573836713287116326588546262341514925912270400int,
        1,
        2,
        8180028602929083561918580684822877255157807268197805567654826417621273332597int,
    );
    let e12: nat = 2 * e11 + 0;
    lemma_ladder(
        2,
        e11,
        8180028602929083561918580684822877255157807268197805567654826417621273332597int,
        0,
        1,
        21629016673907331143834900546850177665317522409486717315011725284511375469775int,
    );
    let e13: nat = 2 * e12 + 1;
    lemma_ladder(
        2,
        e12,
        21629016673907331143834900546850177665317522409486717315011725284511375469775int,
        1,
        2,
        18136697125026455119285928431054166134092475836082764534104672151444873711523int,
    );
    let e14: nat = 2 * e13 + 0;
    lemma_ladder(
        2,
        e13,
        18136697125026455119285928431054166134092475836082764534104672151444873711523int,
        0,
        1,
        9020496513889789278021215787506400061462764847848231223218959155308822542349int,
    );
    let e15: nat = 2 * e14 + 0;
    lemma_ladder(
        2,
        e14,
        9020496513889789278021215787506400061462764847848231223218959155308822542349int,
        0,
        1,
        19955666434054850308358734262518326859341753972318802820752270175561997472492int,
    );
    let e16: nat = 2 * e15 + 1;
    lemma_ladder(
        2,
        e15,
        19955666434054850308358734262518326859341753972318802820752270175561997472492int,
        1,
        2,
        16294593645525683847994982546677972961652385890136534787309365129844293097702int,
    );
    let e17: nat = 2 * e16 + 1;
    lemma_ladder(
        2,
        e16,
        16294593645525683847994982546677972961652385890136534787309365129844293097702int,
        1,
        2,
        15896604876852252334473602583519489865826340324215539273522943994165847236001int,
    );
    let e18: nat = 2 * e17 + 0;
    lemma_ladder(
        2,
        e17,
        15896604876852252334473602583519489865826340324215539273522943994165847236001int,
        0,
        1,
        81819252164321324469300592009650148635738855702820873410037365262637944736int,
    );
    let e19: nat = 2 * e18 + 1;
    lemma_ladder(
        2,
        e18,
        81819252164321324469300592009650148635738855702820873410037365262637944736int,
        1,
        2,
        4376691524518406496680405229335912476933864389117515985699239582605299497162int,
    );
    let e20: nat = 2 * e19 + 1;
    lemma_ladder(
        2,
        e19,
        4376691524518406496680405229335912476933864389117515985699239582605299497162int,
        1,
        2,
        5974345975883273520918970906853344563783771853769918498127526225547174437884int,
    );
    let e21: nat = 2 * e20 + 1;
    lemma_ladder(
        2,
        e20,
        5974345975883273520918970906853344563783771853769918498127526225547174437884int,
        1,
        2,
        17800224494062060533317825604772422137069010726521064744677706181381404867452int,
    );
    let e22: nat = 2 * e21 + 0;
    lemma_ladder(
        2,
        e21,
        17800224494062060533317825604772422137069010726521064744677706181381404867452int,
        0,
        1,
        10673284247608817901491155312911363749560642790947756993790212649837791116734int,
    );
    let e23: nat = 2 * e22 + 0;
    lemma_ladder(
        2,
        e22,
        10673284247608817901491155312911363749560642790947756993790212649837791116734int,
        0,
        1,
        3561931188711369342847211802135894997002339378992420267422654287529512972754int,
    );
}

/// The power of two after 92 bits of the exponent.
proof fn lemma_power_of_two_3()
    ensures
        pow(2, 3744135879281860371228660077nat) % modulus() == 2093152461883768555500407058859823901973209758581582568976971387806140218340int,
{
    lemma_power_of_two_2();
    let e0: nat = 446335778150780245212nat;
    let e1: nat = 2 * e0 + 0;
    lemma_ladder(
        2,
        e0,
        3561931188711369342847211802135894997002339378992420267422654287529512972754int,
        0,
        1,
        5351993962484547749450371382632273529600395932232041629107895020410606104747int,
    );
    let e2: nat = 2 * e1 + 0;
    lemma_ladder(
        2,
        e1,
        5351993962484547749450371382632273529600395932232041629107895020410606104747int,
        0,
        1,
        388023611379129663888148602480280243653619872066755514623153735289220419401int,
    );
    let e3: nat = 2 * e2 + 1;
    lemma_ladder(
        2,
        e2,
        388023611379129663888148602480280243653619872066755514623153735289220419401int,
        1,
        2,
        1091845137154663225899526172968594473309881526838610924660399859864056286393int,
    );
    let e4: nat = 2 * e3 + 0;
    lemma_ladder(
        2,
        e3,
        1091845137154663225899526172968594473309881526838610924660399859864056286393int,
        0,
        1,
        13483745314990568320613522454838430788228213293766759864279695484753555756933int,
    );
    let e5: nat = 2 * e4 + 1;
    lemma_ladder(
        2,
        e4,
        13483745314990568320613522454838430788228213293766759864279695484753555756933int,
        1,
        2,
        14985141051290187458800863623973343204213669719310119892577087596570717648999int,
    );
    let e6: nat = 2 * e5 + 0;
    lemma_ladder(
        2,
        e5,
        14985141051290187458800863623973343204213669719310119892577087596570717648999int,
        0,
        1,
        12807941878214260531973333186842021429036329183581941256633484532869890866453int,
    );
    let e7: nat = 2 * e6 + 0;
    lemma_ladder(
        2,
        e6,
        12807941878214260531973333186842021429036329183581941256633484532869890866453int,
        0,
        1,
        1270912453284372638741679640291627852222413366740415610809880941466614221121int,
    );
    let e8: nat = 2 * e7 + 0;
    lemma_ladder(
        2,
        e7,
        1270912453284372638741679640291627852222413366740415610809880941466614221121int,
        0,
        1,
        9751856144342266779504908221290159826896985547870277872972231419646061567565int,
    );
    let e9: nat = 2 * e8 + 0;
    lemma_ladder(
        2,
        e8,
        9751856144342266779504908221290159826896985547870277872972231419646061567565int,
        0,
        1,
        426442063239882875382041075483398527811703906082474396915708080233994383008int,
    );
    let e10: nat = 2 * e9 + 0;
    lemma_ladder(
        2,
        e9,
        426442063239882875382041075483398527811703906082474396915708080233994383008int,
        0,
        1,
        2322693316184051293849083979546763642235111277465312801495541022582805472612int,
    );
    let e11: nat = 2 * e10 + 1;
    lemma_ladder(
        2,
        e10,
        2322693316184051293849083979546763642235111277465312801495541022582805472612int,
        1,
        2,
        4588384443687280804354551951805030939172501804652265748558243870332974194218int,
    );
    let e12: nat = 2 * e11 + 0;
    lemma_ladder(
        2,
        e11,
        4588384443687280804354551951805030939172501804652265748558243870332974194218int,
        0,
        1,
        9993480942001486163201928386312116203832333498968879225435652740227247042181int,
    );
    let e13: nat = 2 * e12 + 0;
    lemma_ladder(
        2,
        e12,
        9993480942001486163201928386312116203832333498968879225435652740227247042181int,
        0,
        1,
        13379171140304282329350107161650005186090048128239397260181020191686225736980int,
    );
    let e14: nat = 2 * e13 + 0;
    lemma_ladder(
        2,
        e13,
        13379171140304282329350107161650005186090048128239397260181020191686225736980int,
        0,
        1,
        21033325717825377731459346120452373194769469259106684302093228938073484941901int,
    );
    let e15: nat = 2 * e14 + 1;
    lemma_ladder(
        2,
        e14,
        21033325717825377731459346120452373194769469259106684302093228938073484941901int,
        1,
        2,
        21381530530885229411907601626500537347168033106233541990305453460619458566717int,
    );
    let e16: nat = 2 * e15 + 0;
    lemma_ladder(
        2,
        e15,
        21381530530885229411907601626500537347168033106233541990305453460619458566717int,
        0,
        1,
        6680923421261719348734365745561372225346751071633639989010982385790065112470int,
    );
    let e17: nat = 2 * e16 + 1;
    lemma_ladder(
        2,
        e16,
        6680923421261719348734365745561372225346751071633639989010982385790065112470int,
        1,
        2,
        8155061686340887072054132710407296741249642371366177698009244715980383022632int,
    );
    let e18: nat = 2 * e17 + 1;
    lemma_ladder(
        2,
        e17,
        8155061686340887072054132710407296741249642371366177698009244715980383022632int,
        1,
        2,
        20284644560114609762634229907781153209321449033850058189744448747651166474786int,
    );
    let e19: nat = 2 * e18 + 0;
    lemma_ladder(
        2,
        e18,
        20284644560114609762634229907781153209321449033850058189744448747651166474786int,
        0,
        1,
        4329194235893452211789408455154562940455490069245118195954232078106422958985int,
    );
    let e20: nat = 2 * e19 + 1;
    lemma_ladder(
        2,
        e19,
        4329194235893452211789408455154562940455490069245118195954232078106422958985int,
        1,
        2,
        20578246122276906387899651513800306642498882568899619815045594603096519110001int,
    );
    let e21: nat = 2 * e20 + 1;
    lemma_ladder(
        2,
        e20,
        20578246122276906387899651513800306642498882568899619815045594603096519110001int,
        1,
        2,
        2762754846514146721793672455824112721195664623313563978335261507792299575229int,
    );
    let e22: nat = 2 * e21 + 0;
    lemma_ladder(
        2,
        e21,
        2762754846514146721793672455824112721195664623313563978335261507792299575229int,
        0,
        1,
        21756885039923134147168558428743102419028131506122960669460057328506600869750int,
    );
    let e23: nat = 2 * e22 + 1;
    lemma_ladder(
        2,
        e22,
        21756885039923134147168558428743102419028131506122960669460057328506600869750int,
        1,
        2,
        2093152461883768555500407058859823901973209758581582568976971387806140218340int,
    );
}

/// The power of two after 115 bits of the exponent.
proof fn lemma_power_of_two_4()
    ensures
        pow(2, 31408088190030848164971707756458027nat) % modulus() == 4076205696133272149142523237020085325498671389095207590013071968649989994003int,
{
    lemma_power_of_two_3();
    let e0: nat = 3744135879281860371228660077nat;
    let e1: nat = 2 * e0 + 1;
    lemma_ladder(
        2,
        e0,
        2093152461883768555500407058859823901973209758581582568976971387806140218340int,
        1,
        2,
        13873131655373375230494793437495039557020293025043128476998362331472296091775int,
    );
    let e2: nat = 2 * e1 + 0;
    lemma_ladder(
        2,
        e1,
        13873131655373375230494793437495039557020293025043128476998362331472296091775int,
        0,
        1,
        4779329561627786480899468565069677216412167671131548022947552510328599537687int,
    );
    let e3: nat = 2 * e2 + 1;
    lemma_ladder(
        2,
        e2,
        4779329561627786480899468565069677216412167671131548022947552510328599537687int,
        1,
        2,
        14676802837820847683521962280964196224001653640557902141366959968194012247113int,
    );
    let e4: nat = 2 * e3 + 0;
    lemma_ladder(
        2,
        e3,
        14676802837820847683521962280964196224001653640557902141366959968194012247113int,
        0,
        1,
        14845494977213991831925590124727057295476000860048642727148752620677425079356int,
    );
    let e5: nat = 2 * e4 + 0;
    lemma_ladder(
        2,
        e4,
        14845494977213991831925590124727057295476000860048642727148752620677425079356int,
        0,
        1,
        5123104208701072282910207647083623971927159854351345063631594914438634874532int,
    );
    let e6: nat = 2 * e5 + 0;
    lemma_ladder(
        2,
        e5,
        5123104208701072282910207647083623971927159854351345063631594914438634874532int,
        0,
        1,
        4839184730084372195382271586809878396422234172868351155937565106108155169744int,
    );
    let e7: nat = 2 * e6 + 0;
    lemma_ladder(
        2,
        e6,
        4839184730084372195382271586809878396422234172868351155937565106108155169744int,
        0,
        1,
        3908455541678146984971085150820120361344745586053993157821906766875709418314int,
    );
    let e8: nat = 2 * e7 + 0;
    lemma_ladder(
        2,
        e7,
        3908455541678146984971085150820120361344745586053993157821906766875709418314int,
        0,
        1,
        1757336777421635425098062202631196518900199003726759982530306857523513148631int,
    );
    let e9: nat = 2 * e8 + 0;
    lemma_ladder(
        2,
        e8,
        1757336777421635425098062202631196518900199003726759982530306857523513148631int,
        0,
        1,
        18717985877062695607433426984733591794459802163096715665409395581218574854390int,
    );
    let e10: nat = 2 * e9 + 1;
    lemma_ladder(
        2,
        e9,
        18717985877062695607433426984733591794459802163096715665409395581218574854390int,
        1,
        2,
        7450826853305729476711800583092209979925142270376930110483728340141559097747int,
    );
    let e11: nat = 2 * e10 + 1;
    lemma_ladder(
        2,
        e10,
        7450826853305729476711800583092209979925142270376930110483728340141559097747int,
        1,
        2,
        16794814073475341518607158327500502743838897728850396710961272612405112207806int,
    );
    let e12: nat = 2 * e11 + 0;
    lemma_ladder(
        2,
        e11,
        16794814073475341518607158327500502743838897728850396710961272612405112207806int,
        0,
        1,
        20137723952041551867651915834718628094113574314238151109023065809876577704897int,
    );
    let e13: nat = 2 * e12 + 0;
    lemma_ladder(
        2,
        e12,
        20137723952041551867651915834718628094113574314238151109023065809876577704897int,
        0,
        1,
        13289007588582214765706952349725591147759400413116481831171784381236852771280int,
    );
    let e14: nat = 2 * e13 + 0;
    lemma_ladder(
        2,
        e13,
        13289007588582214765706952349725591147759400413116481831171784381236852771280int,
        0,
        1,
        17495088024300463179882554427237069834326496793336063918578467358234842806800int,
    );
    let e15: nat = 2 * e14 + 0;
    lemma_ladder(
        2,
        e14,
        17495088024300463179882554427237069834326496793336063918578467358234842806800int,
        0,
        1,
        749146354557668874905307312980141522164375213741439614355776676814816111074int,
    );
    let e16: nat = 2 * e15 + 0;
    lemma_ladder(
        2,
        e15,
        749146354557668874905307312980141522164375213741439614355776676814816111074int,
        0,
        1,
        20693646378542928666819155746943319416970082764197005299144724938049404926669int,
    );
    let e17: nat = 2 * e16 + 0;
    lemma_ladder(
        2,
        e16,
        20693646378542928666819155746943319416970082764197005299144724938049404926669int,
        0,
        1,
        21603925056816125629455562526006700093116468613673560090026877373237182934189int,
    );
    let e18: nat = 2 * e17 + 1;
    lemma_ladder(
        2,
        e17,
        21603925056816125629455562526006700093116468613673560090026877373237182934189int,
        1,
        2,
        14547369039727964759510954731231468729000344698769559853215719124195057849457int,
    );
    let e19: nat = 2 * e18 + 0;
    lemma_ladder(
        2,
        e18,
        14547369039727964759510954731231468729000344698769559853215719124195057849457int,
        0,
        1,
        3300103565105095335464339149550428834332277625457547726754175659610054704134int,
    );
    let e20: nat = 2 * e19 + 1;
    lemma_ladder(
        2,
        e19,
        3300103565105095335464339149550428834332277625457547726754175659610054704134int,
        1,
        2,
        19645223385407408680733774519053704548563642536389195301384136504488784967167int,
    );
    let e21: nat = 2 * e20 + 0;
    lemma_ladder(
        2,
        e20,
        19645223385407408680733774519053704548563642536389195301384136504488784967167int,
        0,
        1,
        14129545800373557377287764770229777297987315228101047838247942941798488407346int,
    );
    let e22: nat = 2 * e21 + 1;
    lemma_ladder(
        2,
        e21,
        14129545800373557377287764770229777297987315228101047838247942941798488407346int,
        1,
        2,
        18074694259187439066906904710804466746411257940301062812907613019752738180597int,
    );
    let e23: nat = 2 * e22 + 1;
    lemma_ladder(
        2,
        e22,
        18074694259187439066906904710804466746411257940301062812907613019752738180597int,
        1,
        2,
        4076205696133272149142523237020085325498671389095207590013071968649989994003int,
    );
}

/// The power of two after 138 bits of the exponent.
proof fn lemma_power_of_two_5()
    ensures
        pow(2, 263470139855598293163466987459485857337987nat) % modulus() == 15033114866506533258225311161055859366034843468870281771352636892767679853283int,
{
    lemma_power_of_two_4();
    let e0: nat = 31408088190030848164971707756458027nat;
    let e1: nat = 2 * e0 + 0;
    lemma_ladder(
        2,
        e0,
        4076205696133272149142523237020085325498671389095207590013071968649989994003int,
        0,
        1,
        20934462862818541198667617775565328643460569174323814520037204378981474294449int,
    );
    let e2: nat = 2 * e1 + 0;
    lemma_ladder(
        2,
        e1,
        20934462862818541198667617775565328643460569174323814520037204378981474294449int,
        0,
        1,
        19757752364096669700989693295484825123911304016516372688416219051576111728313int,
    );
    let e3: nat = 2 * e2 + 0;
    lemma_ladder(
        2,
        e2,
        19757752364096669700989693295484825123911304016516372688416219051576111728313int,
        0,
        1,
        16888941602329286532244487939343165402096149899623360779480207108256172927777int,
    );
    let e4: nat = 2 * e3 + 0;
    lemma_ladder(
        2,
        e3,
        16888941602329286532244487939343165402096149899623360779480207108256172927777int,
        0,
        1,
        6679343180640325119525588384147943638749706673544478694603291064150649131949int,
    );
    let e5: nat = 2 * e4 + 1;
    lemma_ladder(
        2,
        e4,
        6679343180640325119525588384147943638749706673544478694603291064150649131949int,
        1,
        2,
        9173707930526749683836936045324271422026851332891354308635804709882700711310int,
    );
    let e6: nat = 2 * e5 + 0;
    lemma_ladder(
        2,
        e5,
        9173707930526749683836936045324271422026851332891354308635804709882700711310int,
        0,
        1,
        5412976726147545390618554098291239673437552929343748936615911126466286022150int,
    );
    let e7: nat = 2 * e6 + 1;
    lemma_ladder(
        2,
        e6,
        5412976726147545390618554098291239673437552929343748936615911126466286022150int,
        1,
        2,
        15714207610064021344491302039615359711952315126223832864141435157041713444928int,
    );
    let e8: nat = 2 * e7 + 1;
    lemma_ladder(
        2,
        e7,
        15714207610064021344491302039615359711952315126223832864141435157041713444928int,
        1,
        2,
        12290815262921588626512197392851947109724938705957930797424299697685906127062int,
    );
    let e9: nat = 2 * e8 + 1;
    lemma_ladder(
        2,
        e8,
        12290815262921588626512197392851947109724938705957930797424299697685906127062int,
        1,
        2,
        15631132689448410217323550645453398985172551178289580087773850801196223366492int,
    );
    let e10: nat = 2 * e9 + 0;
    lemma_ladder(
        2,
        e9,
        15631132689448410217323550645453398985172551178289580087773850801196223366492int,
        0,
        1,
        2984192421173715708633557455058679872661644348587638814693644120569514570669int,
    );
    let e11: nat = 2 * e10 + 1;
    lemma_ladder(
        2,
        e10,
        2984192421173715708633557455058679872661644348587638814693644120569514570669int,
        1,
        2,
        10743360754487676677699255509727998032993543073770110136381406474725251743150int,
    );
    let e12: nat = 2 * e11 + 0;
    lemma_ladder(
        2,
        e11,
        10743360754487676677699255509727998032993543073770110136381406474725251743150int,
        0,
        1,
        19266116761011435267218757525286108152706058749491891927801863804187448186009int,
    );
    let e13: nat = 2 * e12 + 0;
    lemma_ladder(
        2,
        e12,
        19266116761011435267218757525286108152706058749491891927801863804187448186009int,
        0,
        1,
        10902432280836239607652686783116042460563148849466585029850284860187433225574int,
    );
    let e14: nat = 2 * e13 + 1;
    lemma_ladder(
        2,
        e13,
        10902432280836239607652686783116042460563148849466585029850284860187433225574int,
        1,
        2,
        13139491994387213650298696797733992349452860103682366379031892524672073913727int,
    );
    let e15: nat = 2 * e14 + 0;
    lemma_ladder(
        2,
        e14,
        13139491994387213650298696797733992349452860103682366379031892524672073913727int,
        0,
        1,
        20647571596646865362221948595515569566738411571266605725847230370271077572734int,
    );
    let e16: nat = 2 * e15 + 1;
    lemma_ladder(
        2,
        e15,
        20647571596646865362221948595515569566738411571266605725847230370271077572734int,
        1,
        2,
        8020939344479050578664759789000665407570409971430557519205310621615595698058int,
    );
    let e17: nat = 2 * e16 + 0;
    lemma_ladder(
        2,
        e16,
        8020939344479050578664759789000665407570409971430557519205310621615595698058int,
        0,
        1,
        19093498680399390373733345583828386028224886418175340668651879407526361876916int,
    );
    let e18: nat = 2 * e17 + 0;
    lemma_ladder(
        2,
        e17,
        19093498680399390373733345583828386028224886418175340668651879407526361876916int,
        0,
        1,
        17318488976375022699104651333327094611773989249779580696542522592354112536036int,
    );
    let e19: nat = 2 * e18 + 0;
    lemma_ladder(
        2,
        e18,
        17318488976375022699104651333327094611773989249779580696542522592354112536036int,
        0,
        1,
        14775453787228252366273605382859325171165104875314402178888522270294476173932int,
    );
    let e20: nat = 2 * e19 + 0;
    lemma_ladder(
        2,
        e19,
        14775453787228252366273605382859325171165104875314402178888522270294476173932int,
        0,
        1,
        16044911866194804606816994711175289494781349951037127734137582215312706063010int,
    );
    let e21: nat = 2 * e20 + 0;
    lemma_ladder(
        2,
        e20,
        16044911866194804606816994711175289494781349951037127734137582215312706063010int,
        0,
        1,
        12629510548964462716148219079951213522874206163904358235100916607912871565730int,
    );
    let e22: nat = 2 * e21 + 1;
    lemma_ladder(
        2,
        e21,
        12629510548964462716148219079951213522874206163904358235100916607912871565730int,
        1,
        2,
        15447359368809516726655296453239375639224235374670334545824568069131329920316int,
    );
    let e23: nat = 2 * e22 + 1;
    lemma_ladder(
        2,
        e22,
        15447359368809516726655296453239375639224235374670334545824568069131329920316int,
        1,
        2,
        15033114866506533258225311161055859366034843468870281771352636892767679853283int,
    );
}

/// The power of two after 161 bits of the exponent.
proof fn lemma_power_of_two_6()
    ensures
        pow(2, 2210147722953790686817404478738542738752298500675nat) % modulus() == 3533131575662520617905836684767044142074498627538056081115678413930909937032int,
{
    lemma_power_of_two_5();
    let e0: nat = 263470139855598293163466987459485857337987nat;
    let e1: nat = 2 * e0 + 0;
    lemma_ladder(
        2,
        e0,
        15033114866506533258225311161055859366034843468870281771352636892767679853283int,
        0,
        1,
        11039924876614371504972564004481180332368823494116132965995446228750751484088int,
    );
    let e2: nat = 2 * e1 + 0;
    lemma_ladder(
        2,
        e1,
        11039924876614371504972564004481180332368823494116132965995446228750751484088int,
        0,
        1,
        20463662323133353618172791995491758303235238864849693964394700776872589173832int,
    );
    let e3: nat = 2 * e2 + 1;
    lemma_ladder(
        2,
        e2,
        20463662323133353618172791995491758303235238864849693964394700776872589173832int,
        1,
        2,
        13705707700948671834626932147346020762236574932720405574664338629445710319006int,
    );
    let e4: nat = 2 * e3 + 1;
    lemma_ladder(
        2,
        e3,
        13705707700948671834626932147346020762236574932720405574664338629445710319006int,
        1,
        2,
        2174240117501294518502009484401603205077193267907184033953149714638791724816int,
    );
    let e5: nat = 2 * e4 + 1;
    lemma_ladder(
        2,
        e4,
        2174240117501294518502009484401603205077193267907184033953149714638791724816int,
        1,
        2,
        21382116989339070881877133907583089724276223712646496635727515154306793071644int,
    );
    let e6: nat = 2 * e5 + 1;
    lemma_ladder(
        2,
        e5,
        21382116989339070881877133907583089724276223712646496635727515154306793071644int,
        1,
        2,
        17363182511770461136135834951470118716134084575028715666937335592839117308063int,
    );
    let e7: nat = 2 * e6 + 1;
    lemma_ladder(
        2,
        e6,
        17363182511770461136135834951470118716134084575028715666937335592839117308063int,
        1,
        2,
        7451466953424117339725627007160265949594936872730683393385815580905219533477int,
    );
    let e8: nat = 2 * e7 + 0;
    lemma_ladder(
        2,
        e7,
        7451466953424117339725627007160265949594936872730683393385815580905219533477int,
        0,
        1,
        1044041078493345875546080091575843507477080777047493119677250444805709481749int,
    );
    let e9: nat = 2 * e8 + 1;
    lemma_ladder(
        2,
        e8,
        1044041078493345875546080091575843507477080777047493119677250444805709481749int,
        1,
        2,
        13896527055304178733798248764295246701538247456389468564749557929417625785350int,
    );
    let e10: nat = 2 * e9 + 0;
    lemma_ladder(
        2,
        e9,
        13896527055304178733798248764295246701538247456389468564749557929417625785350int,
        0,
        1,
        18461811426485186428652368240461156610632582758409600074634982957681222130129int,
    );
    let e11: nat = 2 * e10 + 0;
    lemma_ladder(
        2,
        e10,
        18461811426485186428652368240461156610632582758409600074634982957681222130129int,
        0,
        1,
        6904032770684779195562449634537013892046020122594052702332059472128305172644int,
    );
    let e12: nat = 2 * e11 + 0;
    lemma_ladder(
        2,
        e11,
        6904032770684779195562449634537013892046020122594052702332059472128305172644int,
        0,
        1,
        15343912146920724211838647367976901299280177915185528624773218215925811973645int,
    );
    let e13: nat = 2 * e12 + 0;
    lemma_ladder(
        2,
        e12,
        15343912146920724211838647367976901299280177915185528624773218215925811973645int,
        0,
        1,
        6755446498249871740181579778915455001577875467923072992418289778616297903582int,
    );
    let e14: nat = 2 * e13 + 1;
    lemma_ladder(
        2,
        e13,
        6755446498249871740181579778915455001577875467923072992418289778616297903582int,
        1,
        2,
        7055134984708424322445841151012701211965127798207712927354600916990235847228int,
    );
    let e15: nat = 2 * e14 + 0;
    lemma_ladder(
        2,
        e14,
        7055134984708424322445841151012701211965127798207712927354600916990235847228int,
        0,
        1,
        6914406172088372827145745294589559831318954849516361208076402312571974800979int,
    );
    let e16: nat = 2 * e15 + 0;
    lemma_ladder(
        2,
        e15,
        6914406172088372827145745294589559831318954849516361208076402312571974800979int,
        0,
        1,
        992831685754311636848853567024584989997457619662941197067055436068828641033int,
    );
    let e17: nat = 2 * e16 + 1;
    lemma_ladder(
        2,
        e16,
        992831685754311636848853567024584989997457619662941197067055436068828641033int,
        1,
        2,
        11004297506211908115978874271614676958817126838641033057891872084688427409732int,
    );
    let e18: nat = 2 * e17 + 0;
    lemma_ladder(
        2,
        e17,
        11004297506211908115978874271614676958817126838641033057891872084688427409732int,
        0,
        1,
        251792005306590174681953809709162603490350020015948869877246388232220572868int,
    );
    let e19: nat = 2 * e18 + 0;
    lemma_ladder(
        2,
        e18,
        251792005306590174681953809709162603490350020015948869877246388232220572868int,
        0,
        1,
        7963965161621620586087503764515526086898674334125053476818539179680115430868int,
    );
    let e20: nat = 2 * e19 + 0;
    lemma_ladder(
        2,
        e19,
        7963965161621620586087503764515526086898674334125053476818539179680115430868int,
        0,
        1,
        784648367556210619117423452981616039725530765589892219965957523325309260919int,
    );
    let e21: nat = 2 * e20 + 0;
    lemma_ladder(
        2,
        e20,
        784648367556210619117423452981616039725530765589892219965957523325309260919int,
        0,
        1,
        12410608395315399675967237589643474039196753880648806183373727673245869757427int,
    );
    let e22: nat = 2 * e21 + 1;
    lemma_ladder(
        2,
        e21,
        12410608395315399675967237589643474039196753880648806183373727673245869757427int,
        1,
        2,
        16631868448287832191700096429168651563888579760766999578535404895859943008080int,
    );
    let e23: nat = 2 * e22 + 1;
    lemma_ladder(
        2,
        e22,
        16631868448287832191700096429168651563888579760766999578535404895859943008080int,
        1,
        2,
        3533131575662520617905836684767044142074498627538056081115678413930909937032int,
    );
}

/// The power of two after 184 bits of the exponent.
proof fn lemma_power_of_two_7()
    ensures
        pow(2, 18540062869951952185761973749581969526639441221157053890nat) % modulus() == 21187053325610388779410005481948091563173793436854690169934917684531930594899int,
{
    lemma_power_of_two_6();
    let e0: nat = 2210147722953790686817404478738542738752298500675nat;
    let e1: nat = 2 * e0 + 1;
    lemma_ladder(
        2,
        e0,
        3533131575662520617905836684767044142074498627538056081115678413930909937032int,
        1,
        2,
        13231901646257011418727298515041581308325576770408634576442298251959717538386int,
    );
    let e2: nat = 2 * e1 + 1;
    lemma_ladder(
        2,
        e1,
        13231901646257011418727298515041581308325576770408634576442298251959717538386int,
        1,
        2,
        11609374662388075318744196588752313507707386106322072917856906200391396855105int,
    );
    let e3: nat = 2 * e2 + 0;
    lemma_ladder(
        2,
        e2,
        11609374662388075318744196588752313507707386106322072917856906200391396855105int,
        0,
        1,
        20186425791125849024322457793909052545454407090311252515949872585391368566281int,
    );
    let e4: nat = 2 * e3 + 0;
    lemma_ladder(
        2,
        e3,
        20186425791125849024322457793909052545454407090311252515949872585391368566281int,
        0,
        1,
        5491395826365013854270908617971070504373071344684452458615760637400222585636int,
    );
    let e5: nat = 2 * e4 + 1;
    lemma_ladder(
        2,
        e4,
        5491395826365013854270908617971070504373071344684452458615760637400222585636int,
        1,
        2,
        15005156247399768174084973034801411607521784239700780255990047161160848397564int,
    );
    let e6: nat = 2 * e5 + 1;
    lemma_ladder(
        2,
        e5,
        15005156247399768174084973034801411607521784239700780255990047161160848397564int,
        1,
        2,
        5889945754267007614119144625601920802519789892158205978194811911015279525584int,
    );
    let e7: nat = 2 * e6 + 0;
    lemma_ladder(
        2,
        e6,
        5889945754267007614119144625601920802519789892158205978194811911015279525584int,
        0,
        1,
        5273682089517469603174644290622469685465488327791715093112591112674920957844int,
    );
    let e8: nat = 2 * e7 + 1;
    lemma_ladder(
        2,
        e7,
        5273682089517469603174644290622469685465488327791715093112591112674920957844int,
        1,
        2,
        9228268671571566691553752517831856098947412983048271977687016136764612803753int,
    );
    let e9: nat = 2 * e8 + 1;
    lemma_ladder(
        2,
        e8,
        9228268671571566691553752517831856098947412983048271977687016136764612803753int,
        1,
        2,
        14883296772442968663527040057560625810691456378506730509629699265722016136877int,
    );
    let e10: nat = 2 * e9 + 1;
    lemma_ladder(
        2,
        e9,
        14883296772442968663527040057560625810691456378506730509629699265722016136877int,
        1,
        2,
        6275935377695857066127807983160026723796376000063317204258201795403197346857int,
    );
    let e11: nat = 2 * e10 + 0;
    lemma_ladder(
        2,
        e10,
        6275935377695857066127807983160026723796376000063317204258201795403197346857int,
        0,
        1,
        3546502015223244626189518739502495071167965680830422790371413652177703634522int,
    );
    let e12: nat = 2 * e11 + 0;
    lemma_ladder(
        2,
        e11,
        3546502015223244626189518739502495071167965680830422790371413652177703634522int,
        0,
        1,
        4463829076172524423264720358604203950381729951980180003755338044717923813620int,
    );
    let e13: nat = 2 * e12 + 1;
    lemma_ladder(
        2,
        e12,
        4463829076172524423264720358604203950381729951980180003755338044717923813620int,
        1,
        2,
        6651881316409103679178966633274213439868523131820345543488260632480148302440int,
    );
    let e14: nat = 2 * e13 + 0;
    lemma_ladder(
        2,
        e13,
        6651881316409103679178966633274213439868523131820345543488260632480148302440int,
        0,
        1,
        13075113878806406728837683233255263842181233803396249186563512095700883214977int,
    );
    let e15: nat = 2 * e14 + 1;
    lemma_ladder(
        2,
        e14,
        13075113878806406728837683233255263842181233803396249186563512095700883214977int,
        1,
        2,
        6068299486507677249275172221464741263866814137549788842578649159227838587240int,
    );
    let e16: nat = 2 * e15 + 1;
    lemma_ladder(
        2,
        e15,
        6068299486507677249275172221464741263866814137549788842578649159227838587240int,
        1,
        2,
        1809707021775760662170857671119827870790418899513489984189629949117940061164int,
    );
    let e17: nat = 2 * e16 + 1;
    lemma_ladder(
        2,
        e16,
        1809707021775760662170857671119827870790418899513489984189629949117940061164int,
        1,
        2,
        18745909738814302707504112239981887591476195177232929977626368180811758979877int,
    );
    let e18: nat = 2 * e17 + 0;
    lemma_ladder(
        2,
        e17,
        18745909738814302707504112239981887591476195177232929977626368180811758979877int,
        0,
        1,
        15725671098002749018572953459119466732135211633590544069314890374975924711848int,
    );
    let e19: nat = 2 * e18 + 0;
    lemma_ladder(
        2,
        e18,
        15725671098002749018572953459119466732135211633590544069314890374975924711848int,
        0,
        1,
        8607269785053692497940275657064076925222675377519501555947182031622800072504int,
    );
    let e20: nat = 2 * e19 + 0;
    lemma_ladder(
        2,
        e19,
        8607269785053692497940275657064076925222675377519501555947182031622800072504int,
        0,
        1,
        18154997792566900534728837286634535986977018792334811895067846969173653975147int,
    );
    let e21: nat = 2 * e20 + 0;
    lemma_ladder(
        2,
        e20,
        18154997792566900534728837286634535986977018792334811895067846969173653975147int,
        0,
        1,
        4663002827856585242724819153291133164827471015027199268687008873624890658899int,
    );
    let e22: nat = 2 * e21 + 1;
    lemma_ladder(
        2,
        e21,
        4663002827856585242724819153291133164827471015027199268687008873624890658899int,
        1,
        2,
        13241840382447403140005667050473529701786870305590513557433943093418763428146int,
    );
    let e23: nat = 2 * e22 + 0;
    lemma_ladder(
        2,
        e22,
        13241840382447403140005667050473529701786870305590513557433943093418763428146int,
        0,
        1,
        21187053325610388779410005481948091563173793436854690169934917684531930594899int,
    );
}

/// The power of two after 207 bits of the exponent.
proof fn lemma_power_of_two_8()
    ensures
        pow(2, 155525319711381905721100379091533306226923829743327831520348099nat) % modulus() == 21360627602335911999326665873563661666667914731339318503344579172936599293014int,
{
    lemma_power_of_two_7();
    let e0: nat = 18540062869951952185761973749581969526639441221157053890nat;
    let e1: nat = 2 * e0 + 0;
    lemma_ladder(
        2,
        e0,
        21187053325610388779410005481948091563173793436854690169934917684531930594899int,
        0,
        1,
        13718790774793374621208945976532460810635218722726333694691407576548806875807int,
    );
    let e2: nat = 2 * e1 + 1;
    lemma_ladder(
        2,
        e1,
        13718790774793374621208945976532460810635218722726333694691407576548806875807int,
        1,
        2,
        21588410173975353596008580523071041803785180373268285770820650315232922033014int,
    );
    let e3: nat = 2 * e2 + 0;
    lemma_ladder(
        2,
        e2,
        21588410173975353596008580523071041803785180373268285770820650315232922033014int,
        0,
        1,
        10945058868813748430908437699746698160098598311950912839844535128604375572705int,
    );
    let e4: nat = 2 * e3 + 0;
    lemma_ladder(
        2,
        e3,
        10945058868813748430908437699746698160098598311950912839844535128604375572705int,
        0,
        1,
        17531426018307508579469876135802029030452222381175041409749616494591359025584int,
    );
    let e5: nat = 2 * e4 + 0;
    lemma_ladder(
        2,
        e4,
        17531426018307508579469876135802029030452222381175041409749616494591359025584int,
        0,
        1,
        7286019079907812319993450935119456043138703582326359638205291391080605771198int,
    );
    let e6: nat = 2 * e5 + 1;
    lemma_ladder(
        2,
        e5,
        7286019079907812319993450935119456043138703582326359638205291391080605771198int,
        1,
        2,
        10048445572839729007296561515630437496282615019965471434653336637708278596710int,
    );
    let e7: nat = 2 * e6 + 0;
    lemma_ladder(
        2,
        e6,
        10048445572839729007296561515630437496282615019965471434653336637708278596710int,
        0,
        1,
        6510349295118800437218300156611014583732360299820810993256408155162314824601int,
    );
    let e8: nat = 2 * e7 + 1;
    lemma_ladder(
        2,
        e7,
        6510349295118800437218300156611014583732360299820810993256408155162314824601int,
        1,
        2,
        1242007438586811518612641875298296561186654565836498957433995521731806284652int,
    );
    let e9: nat = 2 * e8 + 0;
    lemma_ladder(
        2,
        e8,
        1242007438586811518612641875298296561186654565836498957433995521731806284652int,
        0,
        1,
        6291645512094248552692859165754771876080711269843877303513458058386203890361int,
    );
    let e10: nat = 2 * e9 + 0;
    lemma_ladder(
        2,
        e9,
        6291645512094248552692859165754771876080711269843877303513458058386203890361int,
        0,
        1,
        8129861850952048692284622109129628295616919536637244226186648789695403566652int,
    );
    let e11: nat = 2 * e10 + 0;
    lemma_ladder(
        2,
        e10,
        8129861850952048692284622109129628295616919536637244226186648789695403566652int,
        0,
        1,
        14090784709303204268521144419873060077469493648375475304914618688374167012929int,
    );
    let e12: nat = 2 * e11 + 0;
    lemma_ladder(
        2,
        e11,
        14090784709303204268521144419873060077469493648375475304914618688374167012929int,
        0,
        1,
        6603162236248304667874161047032341548483541444779815681558587633861418221223int,
    );
    let e13: nat = 2 * e12 + 1;
    lemma_ladder(
        2,
        e12,
        6603162236248304667874161047032341548483541444779815681558587633861418221223int,
        1,
        2,
        18764598227784529965513753628467354394495044754000082844572766186411129424164int,
    );
    let e14: nat = 2 * e13 + 1;
    lemma_ladder(
        2,
        e13,
        18764598227784529965513753628467354394495044754000082844572766186411129424164int,
        1,
        2,
        13501543097561443416312444697240848828607238571423532036949185287595460291175int,
    );
    let e15: nat = 2 * e14 + 1;
    lemma_ladder(
        2,
        e14,
        13501543097561443416312444697240848828607238571423532036949185287595460291175int,
        1,
        2,
        4985661088421749316337197192827606828977054284605997161712900105286951161328int,
    );
    let e16: nat = 2 * e15 + 1;
    lemma_ladder(
        2,
        e15,
        4985661088421749316337197192827606828977054284605997161712900105286951161328int,
        1,
        2,
        13189295178529075588709083282640475349653962801929621802119884600486664171529int,
    );
    let e17: nat = 2 * e16 + 1;
    lemma_ladder(
        2,
        e16,
        13189295178529075588709083282640475349653962801929621802119884600486664171529int,
        1,
        2,
        5069882732689969978656047200580358710974854836830296582410063992532751205100int,
    );
    let e18: nat = 2 * e17 + 0;
    lemma_ladder(
        2,
        e17,
        5069882732689969978656047200580358710974854836830296582410063992532751205100int,
        0,
        1,
        5829164618501254092868821044678702342176398311571728400564011112276254620787int,
    );
    let e19: nat = 2 * e18 + 0;
    lemma_ladder(
        2,
        e18,
        5829164618501254092868821044678702342176398311571728400564011112276254620787int,
        0,
        1,
        12937631764873740219401599149277360678052054684460414098175331505655051382251int,
    );
    let e20: nat = 2 * e19 + 0;
    lemma_ladder(
        2,
        e19,
        12937631764873740219401599149277360678052054684460414098175331505655051382251int,
        0,
        1,
        3634357743543300684364142376247470536760497465930649647568906096597302272951int,
    );
    let e21: nat = 2 * e20 + 0;
    lemma_ladder(
        2,
        e20,
        3634357743543300684364142376247470536760497465930649647568906096597302272951int,
        0,
        1,
        20370168768714640822511459298065321125027128557590479064959979999107243560673int,
    );
    let e22: nat = 2 * e21 + 1;
    lemma_ladder(
        2,
        e21,
        20370168768714640822511459298065321125027128557590479064959979999107243560673int,
        1,
        2,
        13615412615084427776141309912659378210799661250433721606292451385010808727900int,
    );
    let e23: nat = 2 * e22 + 1;
    lemma_ladder(
        2,
        e22,
        13615412615084427776141309912659378210799661250433721606292451385010808727900int,
        1,
        2,
        21360627602335911999326665873563661666667914731339318503344579172936599293014int,
    );
}

/// The power of two after 230 bits of the exponent.
proof fn lemma_power_of_two_9()
    ensures
        pow(2, 1304640941133455945387268408850269024881623053575517794114244233761776nat) % modulus() == 9159286869657520653749402495457206340389815581178787085518047526883659256664int,
{
    lemma_power_of_two_8();
    let e0: nat = 155525319711381905721100379091533306226923829743327831520348099nat;
    let e1: nat = 2 * e0 + 1;
    lemma_ladder(
        2,
        e0,
        21360627602335911999326665873563661666667914731339318503344579172936599293014int,
        1,
        2,
        4106585452521914469180438662086839098147501691470112733598493819754475309262int,
    );
    let e2: nat = 2 * e1 + 1;
    lemma_ladder(
        2,
        e1,
        4106585452521914469180438662086839098147501691470112733598493819754475309262int,
        1,
        2,
        2638182105991975364523656229918911682918266140622765396647172832415446274482int,
    );
    let e3: nat = 2 * e2 + 1;
    lemma_ladder(
        2,
        e2,
        2638182105991975364523656229918911682918266140622765396647172832415446274482int,
        1,
        2,
        18858335196356773620073302493186955379724844454159452969090984210879387962646int,
    );
    let e4: nat = 2 * e3 + 0;
    lemma_ladder(
        2,
        e3,
        18858335196356773620073302493186955379724844454159452969090984210879387962646int,
        0,
        1,
        17105770235446578018065436207602895770789460007024595694304254620880994834230int,
    );
    let e5: nat = 2 * e4 + 1;
    lemma_ladder(
        2,
        e4,
        17105770235446578018065436207602895770789460007024595694304254620880994834230int,
        1,
        2,
        11580298626990733102177837643299921691995334316894361145651820406181102432491int,
    );
    let e6: nat = 2 * e5 + 0;
    lemma_ladder(
        2,
        e5,
        11580298626990733102177837643299921691995334316894361145651820406181102432491int,
        0,
        1,
        3149765755845416105715159129651003016000000115140925268715494798750186779418int,
    );
    let e7: nat = 2 * e6 + 1;
    lemma_ladder(
        2,
        e6,
        3149765755845416105715159129651003016000000115140925268715494798750186779418int,
        1,
        2,
        19715765079721848901456898089099924144972104551528317448926688465230123462410int,
    );
    let e8: nat = 2 * e7 + 1;
    lemma_ladder(
        2,
        e7,
        19715765079721848901456898089099924144972104551528317448926688465230123462410int,
        1,
        2,
        15303331260229150718735829543426260007563585300535386799682140898441874393862int,
    );
    let e9: nat = 2 * e8 + 0;
    lemma_ladder(
        2,
        e8,
        15303331260229150718735829543426260007563585300535386799682140898441874393862int,
        0,
        1,
        5923191342542608918591424247318474362741127330083844920986860888016264420665int,
    );
    let e10: nat = 2 * e9 + 0;
    lemma_ladder(
        2,
        e9,
        5923191342542608918591424247318474362741127330083844920986860888016264420665int,
        0,
        1,
        19803442189994733853793973546774818623181780388257102449739523241804184559541int,
    );
    let e11: nat = 2 * e10 + 1;
    lemma_ladder(
        2,
        e10,
        19803442189994733853793973546774818623181780388257102449739523241804184559541int,
        1,
        2,
        4542135754351385523021871478808103740895886618352799818000603799390210600912int,
    );
    let e12: nat = 2 * e11 + 0;
    lemma_ladder(
        2,
        e11,
        4542135754351385523021871478808103740895886618352799818000603799390210600912int,
        0,
        1,
        15890394638752539786843706884121787694284116157693876527077965425606741238560int,
    );
    let e13: nat = 2 * e12 + 0;
    lemma_ladder(
        2,
        e12,
        15890394638752539786843706884121787694284116157693876527077965425606741238560int,
        0,
        1,
        6184524606901907016687565878804069803214333107316710786658222981444597559113int,
    );
    let e14: nat = 2 * e13 + 1;
    lemma_ladder(
        2,
        e13,
        6184524606901907016687565878804069803214333107316710786658222981444597559113int,
        1,
        2,
        15918688643232103965302738003586631432569098860531005600419570288997170170955int,
    );
    let e15: nat = 2 * e14 + 1;
    lemma_ladder(
        2,
        e14,
        15918688643232103965302738003586631432569098860531005600419570288997170170955int,
        1,
        2,
        1815622771043097448752453592981521284799420018886553510349950437858199482584int,
    );
    let e16: nat = 2 * e15 + 1;
    lemma_ladder(
        2,
        e15,
        1815622771043097448752453592981521284799420018886553510349950437858199482584int,
        1,
        2,
        8912143595702858251142300480099025014699842018565666358544271461518679979828int,
    );
    let e17: nat = 2 * e16 + 1;
    lemma_ladder(
        2,
        e16,
        8912143595702858251142300480099025014699842018565666358544271461518679979828int,
        1,
        2,
        8446404812187615783615033965251717085451156927201484142422415456728693116637int,
    );
    let e18: nat = 2 * e17 + 1;
    lemma_ladder(
        2,
        e17,
        8446404812187615783615033965251717085451156927201484142422415456728693116637int,
        1,
        2,
        4436938147996841204021465242037180281974051631446980008482856678951396272147int,
    );
    let e19: nat = 2 * e18 + 1;
    lemma_ladder(
        2,
        e18,
        4436938147996841204021465242037180281974051631446980008482856678951396272147int,
        1,
        2,
        3091944783686433864868683113657936682576121239650942555197128345665300467552int,
    );
    let e20: nat = 2 * e19 + 0;
    lemma_ladder(
        2,
        e19,
        3091944783686433864868683113657936682576121239650942555197128345665300467552int,
        0,
        1,
        10827582208256417498249279756840538505409616188842729005540313668169589496293int,
    );
    let e21: nat = 2 * e20 + 0;
    lemma_ladder(
        2,
        e20,
        10827582208256417498249279756840538505409616188842729005540313668169589496293int,
        0,
        1,
        4133569320198679793980139723979681462789313216152355832540211227474868292686int,
    );
    let e22: nat = 2 * e21 + 0;
    lemma_ladder(
        2,
        e21,
        4133569320198679793980139723979681462789313216152355832540211227474868292686int,
        0,
        1,
        2608668196584761358944781836505790510116468346668097323218964855168511609591int,
    );
    let e23: nat = 2 * e22 + 0;
    lemma_ladder(
        2,
        e22,
        2608668196584761358944781836505790510116468346668097323218964855168511609591int,
        0,
        1,
        9159286869657520653749402495457206340389815581178787085518047526883659256664int,
    );
}

/// The power of two after 253 bits of the exponent.
proof fn lemma_power_of_two_10()
    ensures
        pow(2, 10944121435919637611123202872628637544274182200208017171849102093287904247808nat) % modulus() == 1int,
{
    lemma_power_of_two_9();
    let e0: nat = 1304640941133455945387268408850269024881623053575517794114244233761776nat;
    let e1: nat = 2 * e0 + 0;
    lemma_ladder(
        2,
        e0,
        9159286869657520653749402495457206340389815581178787085518047526883659256664int,
        0,
        1,
        17834999280883464289834746407850957388662027093890286749798335461752712902790int,
    );
    let e2: nat = 2 * e1 + 0;
    lemma_ladder(
        2,
        e1,
        17834999280883464289834746407850957388662027093890286749798335461752712902790int,
        0,
        1,
        3302319062242292973659510761479993912479819960040460472466103276202846398767int,
    );
    let e3: nat = 2 * e2 + 0;
    lemma_ladder(
        2,
        e2,
        3302319062242292973659510761479993912479819960040460472466103276202846398767int,
        0,
        1,
        13444803442947797268969800855878335791480308166387977147765412618500807647925int,
    );
    let e4: nat = 2 * e3 + 0;
    lemma_ladder(
        2,
        e3,
        13444803442947797268969800855878335791480308166387977147765412618500807647925int,
        0,
        1,
        18333846338735918086119770370996793657148423066986792040814806535363776410818int,
    );
    let e5: nat = 2 * e4 + 0;
    lemma_ladder(
        2,
        e4,
        18333846338735918086119770370996793657148423066986792040814806535363776410818int,
        0,
        1,
        14260323018763667843856701211748185159058388859566488895468465050778820253388int,
    );
    let e6: nat = 2 * e5 + 0;
    lemma_ladder(
        2,
        e5,
        14260323018763667843856701211748185159058388859566488895468465050778820253388int,
        0,
        1,
        11056885754912068891318162196894419145879799203784252190610454259437438100002int,
    );
    let e7: nat = 2 * e6 + 0;
    lemma_ladder(
        2,
        e6,
        11056885754912068891318162196894419145879799203784252190610454259437438100002int,
        0,
        1,
        4159131763223523265279983482755675001811651314697011263146806188054858643597int,
    );
    let e8: nat = 2 * e7 + 0;
    lemma_ladder(
        2,
        e7,
        4159131763223523265279983482755675001811651314697011263146806188054858643597int,
        0,
        1,
        12998202762462019689343049325499432606636388046515302535916683419177694988541int,
    );
    let e9: nat = 2 * e8 + 0;
    lemma_ladder(
        2,
        e8,
        12998202762462019689343049325499432606636388046515302535916683419177694988541int,
        0,
        1,
        6122777754476919152733333388743975044597465264009190878264670965754962606069int,
    );
    let e10: nat = 2 * e9 + 0;
    lemma_ladder(
        2,
        e9,
        6122777754476919152733333388743975044597465264009190878264670965754962606069int,
        0,
        1,
        11180509844185199060961252138099753092805977971516267686274789520586703248420int,
    );
    let e11: nat = 2 * e10 + 0;
    lemma_ladder(
        2,
        e10,
        11180509844185199060961252138099753092805977971516267686274789520586703248420int,
        0,
        1,
        8629375557917535089992492453983139567505263725803416615508315331639335363826int,
    );
    let e12: nat = 2 * e11 + 0;
    lemma_ladder(
        2,
        e11,
        8629375557917535089992492453983139567505263725803416615508315331639335363826int,
        0,
        1,
        20933937181252490806107013321290492602439802319057366872226345399266116858855int,
    );
    let e13: nat = 2 * e12 + 0;
    lemma_ladder(
        2,
        e12,
        20933937181252490806107013321290492602439802319057366872226345399266116858855int,
        0,
        1,
        16684466996268218739938467162263459055157725992402644397587927979981455647697int,
    );
    let e14: nat = 2 * e13 + 0;
    lemma_ladder(
        2,
        e13,
        16684466996268218739938467162263459055157725992402644397587927979981455647697int,
        0,
        1,
        3130046343522653246785879231996824623579379245886153913974578141922259805204int,
    );
    let e15: nat = 2 * e14 + 0;
    lemma_ladder(
        2,
        e14,
        3130046343522653246785879231996824623579379245886153913974578141922259805204int,
        0,
        1,
        20401370034823699727270014467435412030096166975624847558165765569450291499154int,
    );
    let e16: nat = 2 * e15 + 0;
    lemma_ladder(
        2,
        e15,
        20401370034823699727270014467435412030096166975624847558165765569450291499154int,
        0,
        1,
        7414961253265816595321015936562322731060442399429391669368164504607710492273int,
    );
    let e17: nat = 2 * e16 + 0;
    lemma_ladder(
        2,
        e16,
        7414961253265816595321015936562322731060442399429391669368164504607710492273int,
        0,
        1,
        1098385106424437652867543898121953484276553252403901966002191182708621492509int,
    );
    let e18: nat = 2 * e17 + 0;
    lemma_ladder(
        2,
        e17,
        1098385106424437652867543898121953484276553252403901966002191182708621492509int,
        0,
        1,
        17469007932342511601170074881470761592846509154174309952071845811087332797745int,
    );
    let e19: nat = 2 * e18 + 0;
    lemma_ladder(
        2,
        e18,
        17469007932342511601170074881470761592846509154174309952071845811087332797745int,
        0,
        1,
        14940766826517323942636479241147756311199852622225275649687664389641784935947int,
    );
    let e20: nat = 2 * e19 + 0;
    lemma_ladder(
        2,
        e19,
        14940766826517323942636479241147756311199852622225275649687664389641784935947int,
        0,
        1,
        19540430494807482326159819597004422086093766032135589407132600596362845576832int,
    );
    let e21: nat = 2 * e20 + 0;
    lemma_ladder(
        2,
        e20,
        19540430494807482326159819597004422086093766032135589407132600596362845576832int,
        0,
        1,
        21888242871839275217838484774961031246007050428528088939761107053157389710902int,
    );
    let e22: nat = 2 * e21 + 0;
    lemma_ladder(
        2,
        e21,
        21888242871839275217838484774961031246007050428528088939761107053157389710902int,
        0,
        1,
        21888242871839275222246405745257275088548364400416034343698204186575808495616int,
    );
    let e23: nat = 2 * e22 + 0;
    lemma_ladder(
        2,
        e22,
        21888242871839275222246405745257275088548364400416034343698204186575808495616int,
        0,
        1,
        1int,
    );
}

/// Two raised to half the order of the multiplicative group.
pub proof fn lemma_euler_power_of_two()
    ensures
        euler_power(2) == 1,
{
    lemma_power_of_two_10();
}

/// The power of three after 23 bits of the exponent.
proof fn lemma_power_of_three_0()
    ensures
        pow(3, 6342812nat) % modulus() == 9572508066942881263924376577405557159446742517050396028608259969337128853222int,
{
    lemma_pow0(3);
    lemma_small_mod(1, modulus() as nat);
    let e0: nat = 0nat;
    let e1: nat = 2 * e0 + 1;
    lemma_ladder(
        3,
        e0,
        1int,
        1,
        3,
        3int,
    );
    let e2: nat = 2 * e1 + 1;
    lemma_ladder(
        3,
        e1,
        3int,
        1,
        3,
        27int,
    );
    let e3: nat = 2 * e2 + 0;
    lemma_ladder(
        3,
        e2,
        27int,
        0,
        1,
        729int,
    );
    let e4: nat = 2 * e3 + 0;
    lemma_ladder(
        3,
        e3,
        729int,
        0,
        1,
        531441int,
    );
    let e5: nat = 2 * e4 + 0;
    lemma_ladder(
        3,
        e4,
        531441int,
        0,
        1,
        282429536481int,
    );
    let e6: nat = 2 * e5 + 0;
    lemma_ladder(
        3,
        e5,
        282429536481int,
        0,
        1,
        79766443076872509863361int,
    );
    let e7: nat = 2 * e6 + 0;
    lemma_ladder(
        3,
        e6,
        79766443076872509863361int,
        0,
        1,
        6362685441135942358474828762538534230890216321int,
    );
    let e8: nat = 2 * e7 + 1;
    lemma_ladder(
        3,
        e7,
        6362685441135942358474828762538534230890216321int,
        1,
        3,
        8285767550671296022085326293752654294820398455377587952809007104127257057997int,
    );
    let e9: nat = 2 * e8 + 1;
    lemma_ladder(
        3,
        e8,
        8285767550671296022085326293752654294820398455377587952809007104127257057997int,
        1,
        3,
        16189781784753516217044606503612707951393233618176641062203505787429078689564int,
    );
    let e10: nat = 2 * e9 + 0;
    lemma_ladder(
        3,
        e9,
        16189781784753516217044606503612707951393233618176641062203505787429078689564int,
        0,
        1,
        7322992148477404470166286725671429101920901655050704137479884374525198566240int,
    );
    let e11: nat = 2 * e10 + 0;
    lemma_ladder(
        3,
        e10,
        7322992148477404470166286725671429101920901655050704137479884374525198566240int,
        0,
        1,
        12024229249244521259212580350028665789366821269495687195383212367482558771396int,
    );
    let e12: nat = 2 * e11 + 1;
    lemma_ladder(
        3,
        e11,
        12024229249244521259212580350028665789366821269495687195383212367482558771396int,
        1,
        3,
        11594095785955155257499670801771147876667505713995477776868561005440454292505int,
    );
    let e13: nat = 2 * e12 + 0;
    lemma_ladder(
        3,
        e12,
        11594095785955155257499670801771147876667505713995477776868561005440454292505int,
        0,
        1,
        11580630453499900194007277622189186971739034928151066161859188901662929779240int,
    );
    let e14: nat = 2 * e13 + 0;
    lemma_ladder(
        3,
        e13,
        11580630453499900194007277622189186971739034928151066161859188901662929779240int,
        0,
        1,
        7060955055291922014999484953553962189786445603727223196938376425210775801304int,
    );
    let e15: nat = 2 * e14 + 0;
    lemma_ladder(
        3,
        e14,
        7060955055291922014999484953553962189786445603727223196938376425210775801304int,
        0,
        1,
        16068383299965145373337016429157544525006005128915984382309416199535266025670int,
    );
    let e16: nat = 2 * e15 + 1;
    lemma_ladder(
        3,
        e15,
        16068383299965145373337016429157544525006005128915984382309416199535266025670int,
        1,
        3,
        21092617613447794957487949247662221255789228076293150573370195881302513088646int,
    );
    let e17: nat = 2 * e16 + 0;
    lemma_ladder(
        3,
        e16,
        21092617613447794957487949247662221255789228076293150573370195881302513088646int,
        0,
        1,
        7828125431537891957953190267851835503862830114600870215207925752242365075553int,
    );
    let e18: nat = 2 * e17 + 0;
    lemma_ladder(
        3,
        e17,
        7828125431537891957953190267851835503862830114600870215207925752242365075553int,
        0,
        1,
        17642965276387387997157475699845915928281326037370670268129323214359001659791int,
    );
    let e19: nat = 2 * e18 + 1;
    lemma_ladder(
        3,
        e18,
        17642965276387387997157475699845915928281326037370670268129323214359001659791int,
        1,
        3,
        15445928780781998364844555119434719925048703227089284595477042812344539981805int,
    );
    let e20: nat = 2 * e19 + 1;
    lemma_ladder(
        3,
        e19,
        15445928780781998364844555119434719925048703227089284595477042812344539981805int,
        1,
        3,
        5201040074573037776066502842187030891990335965369024342404970088996964545557int,
    );
    let e21: nat = 2 * e20 + 1;
    lemma_ladder(
        3,
        e20,
        5201040074573037776066502842187030891990335965369024342404970088996964545557int,
        1,
        3,
        12238202093878729365976495107715703298096682301102088827597421725509639617191int,
    );
    let e22: nat = 2 * e21 + 0;
    lemma_ladder(
        3,
        e21,
        12238202093878729365976495107715703298096682301102088827597421725509639617191int,
        0,
        1,
        1417376201734446110258740278571993116832553157303938360549915549426811802144int,
    );
    let e23: nat = 2 * e22 + 0;
    lemma_ladder(
        3,
        e22,
        1417376201734446110258740278571993116832553157303938360549915549426811802144int,
        0,
        1,
        9572508066942881263924376577405557159446742517050396028608259969337128853222int,
    );
}

/// The power of three after 46 bits of the exponent.
proof fn lemma_power_of_three_1()
    ensures
        pow(3, 53207371014449nat) % modulus() == 7156020544966340661549243502369361772622162131748515926979080571256694330191int,
{
    lemma_power_of_three_0();
    let e0: nat = 6342812nat;
    let e1: nat = 2 * e0 + 1;
    lemma_ladder(
        3,
        e0,
        9572508066942881263924376577405557159446742517050396028608259969337128853222int,
        1,
        3,
        13150448439742093331624788571252100425404796363995995230933202505941308667696int,
    );
    let e2: nat = 2 * e1 + 1;
    lemma_ladder(
        3,
        e1,
        13150448439742093331624788571252100425404796363995995230933202505941308667696int,
        1,
        3,
        9398910468810783379524276904012873103095937931271377380616276332957516418787int,
    );
    let e3: nat = 2 * e2 + 1;
    lemma_ladder(
        3,
        e2,
        9398910468810783379524276904012873103095937931271377380616276332957516418787int,
        1,
        3,
        5458038766967690788595937829797881451027431528333360773325565362295566980503int,
    );
    let e4: nat = 2 * e3 + 0;
    lemma_ladder(
        3,
        e3,
        5458038766967690788595937829797881451027431528333360773325565362295566980503int,
        0,
        1,
        6666771736524568781501583247454918291685584141503296866025235213369364831878int,
    );
    let e5: nat = 2 * e4 + 0;
    lemma_ladder(
        3,
        e4,
        6666771736524568781501583247454918291685584141503296866025235213369364831878int,
        0,
        1,
        15828556900581490275426636740921671391237303568837458899658122996357128435555int,
    );
    let e6: nat = 2 * e5 + 1;
    lemma_ladder(
        3,
        e5,
        15828556900581490275426636740921671391237303568837458899658122996357128435555int,
        1,
        3,
        3183592288791017923428034339724037037080428119668124304999323680551273791469int,
    );
    let e7: nat = 2 * e6 + 0;
    lemma_ladder(
        3,
        e6,
        3183592288791017923428034339724037037080428119668124304999323680551273791469int,
        0,
        1,
        10751145596342183025928711635800055543494077041421555284079853889139645934325int,
    );
    let e8: nat = 2 * e7 + 1;
    lemma_ladder(
        3,
        e7,
        10751145596342183025928711635800055543494077041421555284079853889139645934325int,
        1,
        3,
        6331336405783520304650870771888997801815316886669733876355788430723401707278int,
    );
    let e9: nat = 2 * e8 + 1;
    lemma_ladder(
        3,
        e8,
        6331336405783520304650870771888997801815316886669733876355788430723401707278int,
        1,
        3,
        9152773505441688088397193383811350915539988052158795648625311720127311376504int,
    );
    let e10: nat = 2 * e9 + 1;
    lemma_ladder(
        3,
        e9,
        9152773505441688088397193383811350915539988052158795648625311720127311376504int,
        1,
        3,
        9912361655773117740651445807095550183442889603334997580154656582639032656470int,
    );
    let e11: nat = 2 * e10 + 0;
    lemma_ladder(
        3,
        e10,
        9912361655773117740651445807095550183442889603334997580154656582639032656470int,
        0,
        1,
        17134504634862932880923218813574539152072099826838052533346136059925865080035int,
    );
    let e12: nat = 2 * e11 + 0;
    lemma_ladder(
        3,
        e11,
        17134504634862932880923218813574539152072099826838052533346136059925865080035int,
        0,
        1,
        5885883870299295822112184365305825482484688060771891778352671992558357997242int,
    );
    let e13: nat = 2 * e12 + 0;
    lemma_ladder(
        3,
        e12,
        5885883870299295822112184365305825482484688060771891778352671992558357997242int,
        0,
        1,
        5946024497493812499911042490827739210920097275016696144645141278824414345795int,
    );
    let e14: nat = 2 * e13 + 0;
    lemma_ladder(
        3,
        e13,
        5946024497493812499911042490827739210920097275016696144645141278824414345795int,
        0,
        1,
        17603783820758022984213798149513460163738169426569078958637092949214316470221int,
    );
    let e15: nat = 2 * e14 + 1;
    lemma_ladder(
        3,
        e14,
        17603783820758022984213798149513460163738169426569078958637092949214316470221int,
        1,
        3,
        10688596542410953731885008911448779628088170591371537395330142574090779038200int,
    );
    let e16: nat = 2 * e15 + 0;
    lemma_ladder(
        3,
        e15,
        10688596542410953731885008911448779628088170591371537395330142574090779038200int,
        0,
        1,
        21019631438847264738498999628181205765790505308980652364714374343461961767070int,
    );
    let e17: nat = 2 * e16 + 0;
    lemma_ladder(
        3,
        e16,
        21019631438847264738498999628181205765790505308980652364714374343461961767070int,
        0,
        1,
        15848802529535754322704987101006864627226742415007300934467837683957781478080int,
    );
    let e18: nat = 2 * e17 + 1;
    lemma_ladder(
        3,
        e17,
        15848802529535754322704987101006864627226742415007300934467837683957781478080int,
        1,
        3,
        16664481385536101509599412973148169869356726070713332158373301411632312410811int,
    );
    let e19: nat = 2 * e18 + 1;
    lemma_ladder(
        3,
        e18,
        16664481385536101509599412973148169869356726070713332158373301411632312410811int,
        1,
        3,
        2273819387613888815829968586968233071037914532242031682009984553789438878794int,
    );
    let e20: nat = 2 * e19 + 0;
    lemma_ladder(
        3,
        e19,
        2273819387613888815829968586968233071037914532242031682009984553789438878794int,
        0,
        1,
        8153850943423306379082507766435958931771984648519994625784954031524214872932int,
    );
    let e21: nat = 2 * e20 + 0;
    lemma_ladder(
        3,
        e20,
        8153850943423306379082507766435958931771984648519994625784954031524214872932int,
        0,
        1,
        6080752312440150159331058494138306354578257765574313237717416167159105581851int,
    );
    let e22: nat = 2 * e21 + 0;
    lemma_ladder(
        3,
        e21,
        6080752312440150159331058494138306354578257765574313237717416167159105581851int,
        0,
        1,
        14324140887860988157376559651077330176435481976778828545481889283244836461920int,
    );
    let e23: nat = 2 * e22 + 1;
    lemma_ladder(
        3,
        e22,
        14324140887860988157376559651077330176435481976778828545481889283244836461920int,
        1,
        3,
        7156020544966340661549243502369361772622162131748515926979080571256694330191int,
    );
}

/// The power of three after 69 bits of the exponent.
proof fn lemma_power_of_three_2()
    ensures
        pow(3, 446335778150780245212nat) % modulus() == 16973703032980093237023343968060104761092483325462967745742868654287241489964int,
{
    lemma_power_of_three_1();
    let e0: nat = 53207371014449nat;
    let e1: nat = 2 * e0 + 1;
    lemma_ladder(
        3,
        e0,
        7156020544966340661549243502369361772622162131748515926979080571256694330191int,
        1,
        3,
        10984147288434590225357574253097779893848692110167463146159677158717644703550int,
    );
    let e2: nat = 2 * e1 + 0;
    lemma_ladder(
        3,
        e1,
        10984147288434590225357574253097779893848692110167463146159677158717644703550int,
        0,
        1,
        8183208420376061694514496105371608695146263315778110108142033619112888630998int,
    );
    let e3: nat = 2 * e2 + 1;
    lemma_ladder(
        3,
        e2,
        8183208420376061694514496105371608695146263315778110108142033619112888630998int,
        1,
        3,
        16162422526872674220729758236854582151003144355245377263049159474123447527508int,
    );
    let e4: nat = 2 * e3 + 0;
    lemma_ladder(
        3,
        e3,
        16162422526872674220729758236854582151003144355245377263049159474123447527508int,
        0,
        1,
        10107951500272249716313196979060470138957264613788023740881204967808691605405int,
    );
    let e5: nat = 2 * e4 + 0;
    lemma_ladder(
        3,
        e4,
        10107951500272249716313196979060470138957264613788023740881204967808691605405int,
        0,
        1,
        9023785871498526174289649020736898136042345209050242331286225699418173596585int,
    );
    let e6: nat = 2 * e5 + 0;
    lemma_ladder(
        3,
        e5,
        9023785871498526174289649020736898136042345209050242331286225699418173596585int,
        0,
        1,
        3987336174885282659425292408127969919042478579935833902779178253315749604705int,
    );
    let e7: nat = 2 * e6 + 0;
    lemma_ladder(
        3,
        e6,
        3987336174885282659425292408127969919042478579935833902779178253315749604705int,
        0,
        1,
        18040461405614123833871855632328823999066768446667638146571201179777361361692int,
    );
    let e8: nat = 2 * e7 + 0;
    lemma_ladder(
        3,
        e7,
        18040461405614123833871855632328823999066768446667638146571201179777361361692int,
        0,
        1,
        8795062566778820226393283682003365150425238041154015603787048447764908295594int,
    );
    let e9: nat = 2 * e8 + 0;
    lemma_ladder(
        3,
        e8,
        8795062566778820226393283682003365150425238041154015603787048447764908295594int,
        0,
        1,
        21291827355198368028508425113946491406666155175029055203974272886869144211892int,
    );
    let e10: nat = 2 * e9 + 0;
    lemma_ladder(
        3,
        e9,
        21291827355198368028508425113946491406666155175029055203974272886869144211892int,
        0,
        1,
        6706385177774721013281549149548458766738236963717350706651772497013712160948int,
    );
    let e11: nat = 2 * e10 + 1;
    lemma_ladder(
        3,
        e10,
        6706385177774721013281549149548458766738236963717350706651772497013712160948int,
        1,
        3,
        7695432506404140705146306442387275264869488693606546998629628785495014683500int,
    );
    let e12: nat = 2 * e11 + 0;
    lemma_ladder(
        3,
        e11,
        7695432506404140705146306442387275264869488693606546998629628785495014683500int,
        0,
        1,
        14341042596596089802267220130446428586704746779845670858853103724977070713068int,
    );
    let e13: nat = 2 * e12 + 1;
    lemma_ladder(
        3,
        e12,
        14341042596596089802267220130446428586704746779845670858853103724977070713068int,
        1,
        3,
        19559460422292567873306642832567164150358024243538043929518348119362450708939int,
    );
    let e14: nat = 2 * e13 + 0;
    lemma_ladder(
        3,
        e13,
        19559460422292567873306642832567164150358024243538043929518348119362450708939int,
        0,
        1,
        17576113923982545120237854131577947435633622268836964513456263406429492236334int,
    );
    let e15: nat = 2 * e14 + 0;
    lemma_ladder(
        3,
        e14,
        17576113923982545120237854131577947435633622268836964513456263406429492236334int,
        0,
        1,
        18745222375535004394014459214888936428831291479165973211079565244332647246762int,
    );
    let e16: nat = 2 * e15 + 1;
    lemma_ladder(
        3,
        e15,
        18745222375535004394014459214888936428831291479165973211079565244332647246762int,
        1,
        3,
        20011460525670330723771892131593621721851431799347562354783095902503908883794int,
    );
    let e17: nat = 2 * e16 + 1;
    lemma_ladder(
        3,
        e16,
        20011460525670330723771892131593621721851431799347562354783095902503908883794int,
        1,
        3,
        14689531914479789438729037989490980847748839467809278484481155879152593657262int,
    );
    let e18: nat = 2 * e17 + 0;
    lemma_ladder(
        3,
        e17,
        14689531914479789438729037989490980847748839467809278484481155879152593657262int,
        0,
        1,
        10073352402767730984562336362754764078461831389815986479346537097485789907264int,
    );
    let e19: nat = 2 * e18 + 1;
    lemma_ladder(
        3,
        e18,
        10073352402767730984562336362754764078461831389815986479346537097485789907264int,
        1,
        3,
        14190677436275684603057507932132574959101523296914945586266302481283415225802int,
    );
    let e20: nat = 2 * e19 + 1;
    lemma_ladder(
        3,
        e19,
        14190677436275684603057507932132574959101523296914945586266302481283415225802int,
        1,
        3,
        21001228571470385247874170051887714383786803525992736730805611118237436067683int,
    );
    let e21: nat = 2 * e20 + 1;
    lemma_ladder(
        3,
        e20,
        21001228571470385247874170051887714383786803525992736730805611118237436067683int,
        1,
        3,
        18284097140305886345029496965561448022978670440907100030986198526978076322161int,
    );
    let e22: nat = 2 * e21 + 0;
    lemma_ladder(
        3,
        e21,
        18284097140305886345029496965561448022978670440907100030986198526978076322161int,
        0,
        1,
        13035168125508198785703088769732779261824804234785848144218551133768842865218int,
    );
    let e23: nat = 2 * e22 + 0;
    lemma_ladder(
        3,
        e22,
        13035168125508198785703088769732779261824804234785848144218551133768842865218int,
        0,
        1,
        16973703032980093237023343968060104761092483325462967745742868654287241489964int,
    );
}

/// The power of three after 92 bits of the exponent.
proof fn lemma_power_of_three_3()
    ensures
        pow(3, 3744135879281860371228660077nat) % modulus() == 11838069631260011069480943165589150542935907519356311823455102736702920393751int,
{
    lemma_power_of_three_2();
    let e0: nat = 446335778150780245212nat;
    let e1: nat = 2 * e0 + 0;
    lemma_ladder(
        3,
        e0,
        16973703032980093237023343968060104761092483325462967745742868654287241489964int,
        0,
        1,
        14531800929846294735733780009349484949812696017774015558477480133080740634802int,
    );
    let e2: nat = 2 * e1 + 0;
    lemma_ladder(
        3,
        e1,
        14531800929846294735733780009349484949812696017774015558477480133080740634802int,
        0,
        1,
        1320953898116303292969338639158127827245409769573288014665222071452448411971int,
    );
    let e3: nat = 2 * e2 + 1;
    lemma_ladder(
        3,
        e2,
        1320953898116303292969338639158127827245409769573288014665222071452448411971int,
        1,
        3,
        13702555476166787139453349723208713998943259965421513121334319219891590215286int,
    );
    let e4: nat = 2 * e3 + 0;
    lemma_ladder(
        3,
        e3,
        13702555476166787139453349723208713998943259965421513121334319219891590215286int,
        0,
        1,
        3954807605784087595071687864782296682186795800721167363581860965123642821524int,
    );
    let e5: nat = 2 * e4 + 1;
    lemma_ladder(
        3,
        e4,
        3954807605784087595071687864782296682186795800721167363581860965123642821524int,
        1,
        3,
        5440472072035384059967397500190541089043311582448170155037573410566191012037int,
    );
    let e6: nat = 2 * e5 + 0;
    lemma_ladder(
        3,
        e5,
        5440472072035384059967397500190541089043311582448170155037573410566191012037int,
        0,
        1,
        8251195617194991890492796984533445662244936617404121529593686259079872644943int,
    );
    let e7: nat = 2 * e6 + 0;
    lemma_ladder(
        3,
        e6,
        8251195617194991890492796984533445662244936617404121529593686259079872644943int,
        0,
        1,
        7272810134279346010933328419370146286869443031709941439956988589273353876963int,
    );
    let e8: nat = 2 * e7 + 0;
    lemma_ladder(
        3,
        e7,
        7272810134279346010933328419370146286869443031709941439956988589273353876963int,
        0,
        1,
        18937783552337508291388603068884667519466470865560114612354060535601260270571int,
    );
    let e9: nat = 2 * e8 + 0;
    lemma_ladder(
        3,
        e8,
        18937783552337508291388603068884667519466470865560114612354060535601260270571int,
        0,
        1,
        2848496328564212921518596831676658679521168195632780753660442783738729264128int,
    );
    let e10: nat = 2 * e9 + 0;
    lemma_ladder(
        3,
        e9,
        2848496328564212921518596831676658679521168195632780753660442783738729264128int,
        0,
        1,
        17270685746439249840008264939894037850283539812464072483421767891673451165405int,
    );
    let e11: nat = 2 * e10 + 1;
    lemma_ladder(
        3,
        e10,
        17270685746439249840008264939894037850283539812464072483421767891673451165405int,
        1,
        3,
        11462326354398322254257370681337004538543964598247486084432847169468033417744int,
    );
    let e12: nat = 2 * e11 + 0;
    lemma_ladder(
        3,
        e11,
        11462326354398322254257370681337004538543964598247486084432847169468033417744int,
        0,
        1,
        12691740395161233440878958384322888174911010039039096484241548017224713481006int,
    );
    let e13: nat = 2 * e12 + 0;
    lemma_ladder(
        3,
        e12,
        12691740395161233440878958384322888174911010039039096484241548017224713481006int,
        0,
        1,
        13433021811484758294067823301764750976258523708722882655026605735363764026269int,
    );
    let e14: nat = 2 * e13 + 0;
    lemma_ladder(
        3,
        e13,
        13433021811484758294067823301764750976258523708722882655026605735363764026269int,
        0,
        1,
        20302011919584630155018031722848092669222167347329405467365620399221928203208int,
    );
    let e15: nat = 2 * e14 + 1;
    lemma_ladder(
        3,
        e14,
        20302011919584630155018031722848092669222167347329405467365620399221928203208int,
        1,
        3,
        8674749452247733267040821963558951280851731147983359768545965063376110229471int,
    );
    let e16: nat = 2 * e15 + 0;
    lemma_ladder(
        3,
        e15,
        8674749452247733267040821963558951280851731147983359768545965063376110229471int,
        0,
        1,
        9386366878246439903646876374934273641634899827563292106580861489213537702470int,
    );
    let e17: nat = 2 * e16 + 1;
    lemma_ladder(
        3,
        e16,
        9386366878246439903646876374934273641634899827563292106580861489213537702470int,
        1,
        3,
        10721330647202590909420953614573667740333380200993415758151043395915934741716int,
    );
    let e18: nat = 2 * e17 + 1;
    lemma_ladder(
        3,
        e17,
        10721330647202590909420953614573667740333380200993415758151043395915934741716int,
        1,
        3,
        19857361944743409425667448018231570435854295321345619150191419334158996827819int,
    );
    let e19: nat = 2 * e18 + 0;
    lemma_ladder(
        3,
        e18,
        19857361944743409425667448018231570435854295321345619150191419334158996827819int,
        0,
        1,
        3948728000216503643881332144528309846477935607340282320753270521983289271397int,
    );
    let e20: nat = 2 * e19 + 1;
    lemma_ladder(
        3,
        e19,
        3948728000216503643881332144528309846477935607340282320753270521983289271397int,
        1,
        3,
        11795079331327831380759075729054779933232429864299722237314028495390634201455int,
    );
    let e21: nat = 2 * e20 + 1;
    lemma_ladder(
        3,
        e20,
        11795079331327831380759075729054779933232429864299722237314028495390634201455int,
        1,
        3,
        2578050683723425370816289304217575672764672604271749161395770221633151857043int,
    );
    let e22: nat = 2 * e21 + 0;
    lemma_ladder(
        3,
        e21,
        2578050683723425370816289304217575672764672604271749161395770221633151857043int,
        0,
        1,
        2134825097440224251450255705691985660489063098218550823164320189686289453969int,
    );
    let e23: nat = 2 * e22 + 1;
    lemma_ladder(
        3,
        e22,
        2134825097440224251450255705691985660489063098218550823164320189686289453969int,
        1,
        3,
        11838069631260011069480943165589150542935907519356311823455102736702920393751int,
    );
}

/// The power of three after 115 bits of the exponent.
proof fn lemma_power_of_three_4()
    ensures
        pow(3, 31408088190030848164971707756458027nat) % modulus() == 1365578919067868946789217546479985455915916107193328809370374906801322586330int,
{
    lemma_power_of_three_3();
    let e0: nat = 3744135879281860371228660077nat;
    let e1: nat = 2 * e0 + 1;
    lemma_ladder(
        3,
        e0,
        11838069631260011069480943165589150542935907519356311823455102736702920393751int,
        1,
        3,
        18859098941520383850523635007290097436266824157197640047882129134235995924112int,
    );
    let e2: nat = 2 * e1 + 0;
    lemma_ladder(
        3,
        e1,
        18859098941520383850523635007290097436266824157197640047882129134235995924112int,
        0,
        1,
        5980394353150696016435309680811223271299028421614322084580909528633901932681int,
    );
    let e3: nat = 2 * e2 + 1;
    lemma_ladder(
        3,
        e2,
        5980394353150696016435309680811223271299028421614322084580909528633901932681int,
        1,
        3,
        13558921997643776253296973826269513341565683871538219065117691560027770577235int,
    );
    let e4: nat = 2 * e3 + 0;
    lemma_ladder(
        3,
        e3,
        13558921997643776253296973826269513341565683871538219065117691560027770577235int,
        0,
        1,
        19948990625283563962725143855426153965751891258042816922367515824151621414835int,
    );
    let e5: nat = 2 * e4 + 0;
    lemma_ladder(
        3,
        e4,
        19948990625283563962725143855426153965751891258042816922367515824151621414835int,
        0,
        1,
        20555622587063799984448021779307793264793555347372248390382197954932145379729int,
    );
    let e6: nat = 2 * e5 + 0;
    lemma_ladder(
        3,
        e5,
        20555622587063799984448021779307793264793555347372248390382197954932145379729int,
        0,
        1,
        20338492108412308445900676219898576983175545662547279281637255661115785154744int,
    );
    let e7: nat = 2 * e6 + 0;
    lemma_ladder(
        3,
        e6,
        20338492108412308445900676219898576983175545662547279281637255661115785154744int,
        0,
        1,
        13457254446763832571940664142923385182403199431132987829269544107202249812538int,
    );
    let e8: nat = 2 * e7 + 0;
    lemma_ladder(
        3,
        e7,
        13457254446763832571940664142923385182403199431132987829269544107202249812538int,
        0,
        1,
        17406947747808631541022411258293499950573055755298183720707893045565920475610int,
    );
    let e9: nat = 2 * e8 + 0;
    lemma_ladder(
        3,
        e8,
        17406947747808631541022411258293499950573055755298183720707893045565920475610int,
        0,
        1,
        3661159688572407222309232191226884657845161758293952364750153982929420528395int,
    );
    let e10: nat = 2 * e9 + 1;
    lemma_ladder(
        3,
        e9,
        3661159688572407222309232191226884657845161758293952364750153982929420528395int,
        1,
        3,
        13070059703536577423236092818823539674860665813278803192169023284315057876768int,
    );
    let e11: nat = 2 * e10 + 1;
    lemma_ladder(
        3,
        e10,
        13070059703536577423236092818823539674860665813278803192169023284315057876768int,
        1,
        3,
        8747810888745694725899535634505033981173372309838547791364118077501433175761int,
    );
    let e12: nat = 2 * e11 + 0;
    lemma_ladder(
        3,
        e11,
        8747810888745694725899535634505033981173372309838547791364118077501433175761int,
        0,
        1,
        18796201725087369671278767129796153343232790137268793705353846059322416048231int,
    );
    let e13: nat = 2 * e12 + 0;
    lemma_ladder(
        3,
        e12,
        18796201725087369671278767129796153343232790137268793705353846059322416048231int,
        0,
        1,
        8707922368617161815029708203808229452507957389127010178998694492047075655818int,
    );
    let e14: nat = 2 * e13 + 0;
    lemma_ladder(
        3,
        e13,
        8707922368617161815029708203808229452507957389127010178998694492047075655818int,
        0,
        1,
        20759390602577434255662289914361396379081910129011389330460702041378133141925int,
    );
    let e15: nat = 2 * e14 + 0;
    lemma_ladder(
        3,
        e14,
        20759390602577434255662289914361396379081910129011389330460702041378133141925int,
        0,
        1,
        18856668419951644088043930387746612449280246008649675482094584227957905226466int,
    );
    let e16: nat = 2 * e15 + 0;
    lemma_ladder(
        3,
        e15,
        18856668419951644088043930387746612449280246008649675482094584227957905226466int,
        0,
        1,
        17598064624845417094911142255757410508991378778264284539318917643752213331212int,
    );
    let e17: nat = 2 * e16 + 0;
    lemma_ladder(
        3,
        e16,
        17598064624845417094911142255757410508991378778264284539318917643752213331212int,
        0,
        1,
        9034313437363721038469885453622170231385172808023569761415227606495190731928int,
    );
    let e18: nat = 2 * e17 + 1;
    lemma_ladder(
        3,
        e17,
        9034313437363721038469885453622170231385172808023569761415227606495190731928int,
        1,
        3,
        15616247671202485692983360588872454787809372267079558947406536541657769280026int,
    );
    let e19: nat = 2 * e18 + 0;
    lemma_ladder(
        3,
        e18,
        15616247671202485692983360588872454787809372267079558947406536541657769280026int,
        0,
        1,
        1974578126012018067929420867746846884975263912410823267351677019387168475824int,
    );
    let e20: nat = 2 * e19 + 1;
    lemma_ladder(
        3,
        e19,
        1974578126012018067929420867746846884975263912410823267351677019387168475824int,
        1,
        3,
        13227819784361773180518570613335219133004799993648068523217178815767680976278int,
    );
    let e21: nat = 2 * e20 + 0;
    lemma_ladder(
        3,
        e20,
        13227819784361773180518570613335219133004799993648068523217178815767680976278int,
        0,
        1,
        2236461559228431983646131676653995700352148891918445407296692435095794184433int,
    );
    let e22: nat = 2 * e21 + 1;
    lemma_ladder(
        3,
        e21,
        2236461559228431983646131676653995700352148891918445407296692435095794184433int,
        1,
        3,
        1565748102294371545976262913149780393832213924903467808634777696728790207797int,
    );
    let e23: nat = 2 * e22 + 1;
    lemma_ladder(
        3,
        e22,
        1565748102294371545976262913149780393832213924903467808634777696728790207797int,
        1,
        3,
        1365578919067868946789217546479985455915916107193328809370374906801322586330int,
    );
}

/// The power of three after 138 bits of the exponent.
proof fn lemma_power_of_three_5()
    ensures
        pow(3, 263470139855598293163466987459485857337987nat) % modulus() == 8808829599348274789131772654766236349536032292979024143428176732339163186349int,
{
    lemma_power_of_three_4();
    let e0: nat = 31408088190030848164971707756458027nat;
    let e1: nat = 2 * e0 + 0;
    lemma_ladder(
        3,
        e0,
        1365578919067868946789217546479985455915916107193328809370374906801322586330int,
        0,
        1,
        20616775566335679035478423101709580371967938153238911640239537056317402616117int,
    );
    let e2: nat = 2 * e1 + 0;
    lemma_ladder(
        3,
        e1,
        20616775566335679035478423101709580371967938153238911640239537056317402616117int,
        0,
        1,
        10032722603335555913867153005399492503425466768255664487023117579863730125212int,
    );
    let e3: nat = 2 * e2 + 0;
    lemma_ladder(
        3,
        e2,
        10032722603335555913867153005399492503425466768255664487023117579863730125212int,
        0,
        1,
        2992761337719872335938650418187695481994476610398870253992912040810059533357int,
    );
    let e4: nat = 2 * e3 + 0;
    lemma_ladder(
        3,
        e3,
        2992761337719872335938650418187695481994476610398870253992912040810059533357int,
        0,
        1,
        4057988018417457126271259151500738526957745558664757344094921129541056062180int,
    );
    let e5: nat = 2 * e4 + 1;
    lemma_ladder(
        3,
        e4,
        4057988018417457126271259151500738526957745558664757344094921129541056062180int,
        1,
        3,
        17763513160021822024876224602955904284713811099466262342185867415612608290305int,
    );
    let e6: nat = 2 * e5 + 0;
    lemma_ladder(
        3,
        e5,
        17763513160021822024876224602955904284713811099466262342185867415612608290305int,
        0,
        1,
        6105826922023654893631724759118188223421816030040583482675775009982819274303int,
    );
    let e7: nat = 2 * e6 + 1;
    lemma_ladder(
        3,
        e6,
        6105826922023654893631724759118188223421816030040583482675775009982819274303int,
        1,
        3,
        12726619030569283801225009743465190587597590594337016405895582634243972505991int,
    );
    let e8: nat = 2 * e7 + 1;
    lemma_ladder(
        3,
        e7,
        12726619030569283801225009743465190587597590594337016405895582634243972505991int,
        1,
        3,
        976270515719434707410647143190786367123677500483532777655981579131112443648int,
    );
    let e9: nat = 2 * e8 + 1;
    lemma_ladder(
        3,
        e8,
        976270515719434707410647143190786367123677500483532777655981579131112443648int,
        1,
        3,
        15804790774403923125949012526123761824997664017943011552657619254435445568420int,
    );
    let e10: nat = 2 * e9 + 0;
    lemma_ladder(
        3,
        e9,
        15804790774403923125949012526123761824997664017943011552657619254435445568420int,
        0,
        1,
        7188085421349275319554657164652034676691700004810214133801633850950788810820int,
    );
    let e11: nat = 2 * e10 + 1;
    lemma_ladder(
        3,
        e10,
        7188085421349275319554657164652034676691700004810214133801633850950788810820int,
        1,
        3,
        612581421744489568135891671961201389792931192142731049844501507660290690206int,
    );
    let e12: nat = 2 * e11 + 0;
    lemma_ladder(
        3,
        e11,
        612581421744489568135891671961201389792931192142731049844501507660290690206int,
        0,
        1,
        19302723155244106417883353390139337386973293027374030945107793292862958025684int,
    );
    let e13: nat = 2 * e12 + 0;
    lemma_ladder(
        3,
        e12,
        19302723155244106417883353390139337386973293027374030945107793292862958025684int,
        0,
        1,
        11091236272150302332463015192601454535062807030250776074059146182276339512115int,
    );
    let e14: nat = 2 * e13 + 1;
    lemma_ladder(
        3,
        e13,
        11091236272150302332463015192601454535062807030250776074059146182276339512115int,
        1,
        3,
        2897160259530299131421568862911671841268863445998747240478103516523232567549int,
    );
    let e15: nat = 2 * e14 + 0;
    lemma_ladder(
        3,
        e14,
        2897160259530299131421568862911671841268863445998747240478103516523232567549int,
        0,
        1,
        5162763565383299812362336683539742508970433309357541848515137569162106307388int,
    );
    let e16: nat = 2 * e15 + 1;
    lemma_ladder(
        3,
        e15,
        5162763565383299812362336683539742508970433309357541848515137569162106307388int,
        1,
        3,
        17910371094561727575921441547948559567578515200131202264341756175576721540383int,
    );
    let e17: nat = 2 * e16 + 0;
    lemma_ladder(
        3,
        e16,
        17910371094561727575921441547948559567578515200131202264341756175576721540383int,
        0,
        1,
        10614275762968303402848265495537165842864963814933160736320343751617229413475int,
    );
    let e18: nat = 2 * e17 + 0;
    lemma_ladder(
        3,
        e17,
        10614275762968303402848265495537165842864963814933160736320343751617229413475int,
        0,
        1,
        10563920412012864160065427728311324271239320852187261914737506724737000860708int,
    );
    let e19: nat = 2 * e18 + 0;
    lemma_ladder(
        3,
        e18,
        10563920412012864160065427728311324271239320852187261914737506724737000860708int,
        0,
        1,
        14879626443239194282071696632302741347158722277234045923879619210243412354793int,
    );
    let e20: nat = 2 * e19 + 0;
    lemma_ladder(
        3,
        e19,
        14879626443239194282071696632302741347158722277234045923879619210243412354793int,
        0,
        1,
        7875197831600205734038376905320820598302397811294026673788950286251062037857int,
    );
    let e21: nat = 2 * e20 + 0;
    lemma_ladder(
        3,
        e20,
        7875197831600205734038376905320820598302397811294026673788950286251062037857int,
        0,
        1,
        21328544978545617597729967265396889053874997665152729921010349623809563323588int,
    );
    let e22: nat = 2 * e21 + 1;
    lemma_ladder(
        3,
        e21,
        21328544978545617597729967265396889053874997665152729921010349623809563323588int,
        1,
        3,
        17743522829021653941154632332452210103575482119963269312435000441574657790574int,
    );
    let e23: nat = 2 * e22 + 1;
    lemma_ladder(
        3,
        e22,
        17743522829021653941154632332452210103575482119963269312435000441574657790574int,
        1,
        3,
        8808829599348274789131772654766236349536032292979024143428176732339163186349int,
    );
}

/// The power of three after 161 bits of the exponent.
proof fn lemma_power_of_three_6()
    ensures
        pow(3, 2210147722953790686817404478738542738752298500675nat) % modulus() == 14683707820159839333379258823498609988839798961768077119316763568629468885647int,
{
    lemma_power_of_three_5();
    let e0: nat = 263470139855598293163466987459485857337987nat;
    let e1: nat = 2 * e0 + 0;
    lemma_ladder(
        3,
        e0,
        8808829599348274789131772654766236349536032292979024143428176732339163186349int,
        0,
        1,
        9842147033572224570779612271325845976495278052423044998947615266268158555435int,
    );
    let e2: nat = 2 * e1 + 0;
    lemma_ladder(
        3,
        e1,
        9842147033572224570779612271325845976495278052423044998947615266268158555435int,
        0,
        1,
        5169309304030685985469432646721277545641363517500868433813847184736677158775int,
    );
    let e3: nat = 2 * e2 + 1;
    lemma_ladder(
        3,
        e2,
        5169309304030685985469432646721277545641363517500868433813847184736677158775int,
        1,
        3,
        1654544163776964730192986143635446086509249835093112978455940854926309870724int,
    );
    let e4: nat = 2 * e3 + 1;
    lemma_ladder(
        3,
        e3,
        1654544163776964730192986143635446086509249835093112978455940854926309870724int,
        1,
        3,
        2792248091113179342956350174750345189529915200220082843381141979762816571983int,
    );
    let e5: nat = 2 * e4 + 1;
    lemma_ladder(
        3,
        e4,
        2792248091113179342956350174750345189529915200220082843381141979762816571983int,
        1,
        3,
        20466615803019753182667163438157412073266046587747016370659017153159177082245int,
    );
    let e6: nat = 2 * e5 + 1;
    lemma_ladder(
        3,
        e5,
        20466615803019753182667163438157412073266046587747016370659017153159177082245int,
        1,
        3,
        14639341229650584812270490851239575034821695706463974638067712600125824181027int,
    );
    let e7: nat = 2 * e6 + 1;
    lemma_ladder(
        3,
        e6,
        14639341229650584812270490851239575034821695706463974638067712600125824181027int,
        1,
        3,
        6537221913402800058666023328812727721404416006099055950341647058386989317323int,
    );
    let e8: nat = 2 * e7 + 0;
    lemma_ladder(
        3,
        e7,
        6537221913402800058666023328812727721404416006099055950341647058386989317323int,
        0,
        1,
        6999299451581945391359986561916042334929204700067257480657014391596584706708int,
    );
    let e9: nat = 2 * e8 + 1;
    lemma_ladder(
        3,
        e8,
        6999299451581945391359986561916042334929204700067257480657014391596584706708int,
        1,
        3,
        13649319107650174710305218610296469248087380848967405367554486066474556182881int,
    );
    let e10: nat = 2 * e9 + 0;
    lemma_ladder(
        3,
        e9,
        13649319107650174710305218610296469248087380848967405367554486066474556182881int,
        0,
        1,
        12293692048140630759184324637277347015509215596609250186223202553182545046800int,
    );
    let e11: nat = 2 * e10 + 0;
    lemma_ladder(
        3,
        e10,
        12293692048140630759184324637277347015509215596609250186223202553182545046800int,
        0,
        1,
        10843796743467261058004747207664615806063980151279707565052467417971969144351int,
    );
    let e12: nat = 2 * e11 + 0;
    lemma_ladder(
        3,
        e11,
        10843796743467261058004747207664615806063980151279707565052467417971969144351int,
        0,
        1,
        5702704823487240232819599020284355268943908385707316061132766266652461929895int,
    );
    let e13: nat = 2 * e12 + 0;
    lemma_ladder(
        3,
        e12,
        5702704823487240232819599020284355268943908385707316061132766266652461929895int,
        0,
        1,
        15478048656095016739536416957521057998324790809308959402082799224861604728551int,
    );
    let e14: nat = 2 * e13 + 1;
    lemma_ladder(
        3,
        e13,
        15478048656095016739536416957521057998324790809308959402082799224861604728551int,
        1,
        3,
        2764390958367567591131467867140280314492748660522676743359546326272166577535int,
    );
    let e15: nat = 2 * e14 + 0;
    lemma_ladder(
        3,
        e14,
        2764390958367567591131467867140280314492748660522676743359546326272166577535int,
        0,
        1,
        1277529891396331828306087924161603864167721039585671393537587210192103635145int,
    );
    let e16: nat = 2 * e15 + 0;
    lemma_ladder(
        3,
        e15,
        1277529891396331828306087924161603864167721039585671393537587210192103635145int,
        0,
        1,
        7583457310128613872651147782067628257928361517419926408827867499810613564550int,
    );
    let e17: nat = 2 * e16 + 1;
    lemma_ladder(
        3,
        e16,
        7583457310128613872651147782067628257928361517419926408827867499810613564550int,
        1,
        3,
        11557117984310190701148788158676552179733274554149992445222210910679778180038int,
    );
    let e18: nat = 2 * e17 + 0;
    lemma_ladder(
        3,
        e17,
        11557117984310190701148788158676552179733274554149992445222210910679778180038int,
        0,
        1,
        8895799402868886723429325884389617019205949695916970058270538256499060413606int,
    );
    let e19: nat = 2 * e18 + 0;
    lemma_ladder(
        3,
        e18,
        8895799402868886723429325884389617019205949695916970058270538256499060413606int,
        0,
        1,
        21745164346395179871279870435407464677611770908380306986063873410699575134480int,
    );
    let e20: nat = 2 * e19 + 0;
    lemma_ladder(
        3,
        e19,
        21745164346395179871279870435407464677611770908380306986063873410699575134480int,
        0,
        1,
        8361499897447802256113042853126208952187667370789924760793516188014666200370int,
    );
    let e21: nat = 2 * e20 + 0;
    lemma_ladder(
        3,
        e20,
        8361499897447802256113042853126208952187667370789924760793516188014666200370int,
        0,
        1,
        10334131802276501585615414119519305252798876890250026722755778599538075181858int,
    );
    let e22: nat = 2 * e21 + 1;
    lemma_ladder(
        3,
        e21,
        10334131802276501585615414119519305252798876890250026722755778599538075181858int,
        1,
        3,
        19004276380785925431978669250640704631406206009029857614325248670452659515093int,
    );
    let e23: nat = 2 * e22 + 1;
    lemma_ladder(
        3,
        e22,
        19004276380785925431978669250640704631406206009029857614325248670452659515093int,
        1,
        3,
        14683707820159839333379258823498609988839798961768077119316763568629468885647int,
    );
}

/// The power of three after 184 bits of the exponent.
proof fn lemma_power_of_three_7()
    ensures
        pow(3, 18540062869951952185761973749581969526639441221157053890nat) % modulus() == 9676084875885049505900866006232369993852133839253963622070719498764870377648int,
{
    lemma_power_of_three_6();
    let e0: nat = 2210147722953790686817404478738542738752298500675nat;
    let e1: nat = 2 * e0 + 1;
    lemma_ladder(
        3,
        e0,
        14683707820159839333379258823498609988839798961768077119316763568629468885647int,
        1,
        3,
        15847268619862771801429751178256670879832213539570500853867971844033873077688int,
    );
    let e2: nat = 2 * e1 + 1;
    lemma_ladder(
        3,
        e1,
        15847268619862771801429751178256670879832213539570500853867971844033873077688int,
        1,
        3,
        18093097540852798016119833611810168283322795562326562758418761234664945035712int,
    );
    let e3: nat = 2 * e2 + 0;
    lemma_ladder(
        3,
        e2,
        18093097540852798016119833611810168283322795562326562758418761234664945035712int,
        0,
        1,
        18067419052396246575414023549345844535172340251258096510983751427498379880961int,
    );
    let e4: nat = 2 * e3 + 0;
    lemma_ladder(
        3,
        e3,
        18067419052396246575414023549345844535172340251258096510983751427498379880961int,
        0,
        1,
        9368924406869403051659190283393915089303328125396842759430827050325546420567int,
    );
    let e5: nat = 2 * e4 + 1;
    lemma_ladder(
        3,
        e4,
        9368924406869403051659190283393915089303328125396842759430827050325546420567int,
        1,
        3,
        11414224445402109699419986404071265861886836127782624343024909395305196534405int,
    );
    let e6: nat = 2 * e5 + 1;
    lemma_ladder(
        3,
        e5,
        11414224445402109699419986404071265861886836127782624343024909395305196534405int,
        1,
        3,
        403197610907584780524380304017703649201089989044605047604468516934167295042int,
    );
    let e7: nat = 2 * e6 + 0;
    lemma_ladder(
        3,
        e6,
        403197610907584780524380304017703649201089989044605047604468516934167295042int,
        0,
        1,
        2074541598882712821782479462444387632596693909207647369260238326735981844823int,
    );
    let e8: nat = 2 * e7 + 1;
    lemma_ladder(
        3,
        e7,
        2074541598882712821782479462444387632596693909207647369260238326735981844823int,
        1,
        3,
        5522387281571486378070267801763938834729275286600535105442237421153288187607int,
    );
    let e9: nat = 2 * e8 + 1;
    lemma_ladder(
        3,
        e8,
        5522387281571486378070267801763938834729275286600535105442237421153288187607int,
        1,
        3,
        15463565653408946163592517348241404074449567903225014830146636647726440311783int,
    );
    let e10: nat = 2 * e9 + 1;
    lemma_ladder(
        3,
        e9,
        15463565653408946163592517348241404074449567903225014830146636647726440311783int,
        1,
        3,
        2132888712680203615418471579189232140086027286279697655178421169022346106582int,
    );
    let e11: nat = 2 * e10 + 0;
    lemma_ladder(
        3,
        e10,
        2132888712680203615418471579189232140086027286279697655178421169022346106582int,
        0,
        1,
        6164077208080657887117848178861517228408817298436549943433243327740979149445int,
    );
    let e12: nat = 2 * e11 + 0;
    lemma_ladder(
        3,
        e11,
        6164077208080657887117848178861517228408817298436549943433243327740979149445int,
        0,
        1,
        613983251191763643199405393516769077466127708304998427209751926983412016006int,
    );
    let e13: nat = 2 * e12 + 1;
    lemma_ladder(
        3,
        e12,
        613983251191763643199405393516769077466127708304998427209751926983412016006int,
        1,
        3,
        12121757753478292990685354754806401671490267556171284160545990597479647997513int,
    );
    let e14: nat = 2 * e13 + 0;
    lemma_ladder(
        3,
        e13,
        12121757753478292990685354754806401671490267556171284160545990597479647997513int,
        0,
        1,
        21200693268110342933530099768574711199048536198784876061383708651193469769755int,
    );
    let e15: nat = 2 * e14 + 1;
    lemma_ladder(
        3,
        e14,
        21200693268110342933530099768574711199048536198784876061383708651193469769755int,
        1,
        3,
        11179755696973950064494207626002936347409203711449898623306741390564909297332int,
    );
    let e16: nat = 2 * e15 + 1;
    lemma_ladder(
        3,
        e15,
        11179755696973950064494207626002936347409203711449898623306741390564909297332int,
        1,
        3,
        20417626433864594825952319969220032073893220154880214180365880950272797310092int,
    );
    let e17: nat = 2 * e16 + 1;
    lemma_ladder(
        3,
        e16,
        20417626433864594825952319969220032073893220154880214180365880950272797310092int,
        1,
        3,
        3890535801399605545133460370784290992952591173251924587528637295414423382011int,
    );
    let e18: nat = 2 * e17 + 0;
    lemma_ladder(
        3,
        e17,
        3890535801399605545133460370784290992952591173251924587528637295414423382011int,
        0,
        1,
        10839422572474516951212665319730052200706285267682438153703453179059579508315int,
    );
    let e19: nat = 2 * e18 + 0;
    lemma_ladder(
        3,
        e18,
        10839422572474516951212665319730052200706285267682438153703453179059579508315int,
        0,
        1,
        10029254467180732035736468052329617090143766154326689101194602401470014550403int,
    );
    let e20: nat = 2 * e19 + 0;
    lemma_ladder(
        3,
        e19,
        10029254467180732035736468052329617090143766154326689101194602401470014550403int,
        0,
        1,
        5198775424601869417750247455665971940066662149675993981158582921237778223698int,
    );
    let e21: nat = 2 * e20 + 0;
    lemma_ladder(
        3,
        e20,
        5198775424601869417750247455665971940066662149675993981158582921237778223698int,
        0,
        1,
        20924754070194550483209719533060894149271234922548956199661560408515198246545int,
    );
    let e22: nat = 2 * e21 + 1;
    lemma_ladder(
        3,
        e21,
        20924754070194550483209719533060894149271234922548956199661560408515198246545int,
        1,
        3,
        11053842483613711386345140293708068382167084723274962616340516323811627337068int,
    );
    let e23: nat = 2 * e22 + 0;
    lemma_ladder(
        3,
        e22,
        11053842483613711386345140293708068382167084723274962616340516323811627337068int,
        0,
        1,
        9676084875885049505900866006232369993852133839253963622070719498764870377648int,
    );
}

/// The power of three after 207 bits of the exponent.
proof fn lemma_power_of_three_8()
    ensures
        pow(3, 155525319711381905721100379091533306226923829743327831520348099nat) % modulus() == 10123166128992849220074441278662048889336598521232397070240154343455885545653int,
{
    lemma_power_of_three_7();
    let e0: nat = 18540062869951952185761973749581969526639441221157053890nat;
    let e1: nat = 2 * e0 + 0;
    lemma_ladder(
        3,
        e0,
        9676084875885049505900866006232369993852133839253963622070719498764870377648int,
        0,
        1,
        13452182770044294022912646275292715976146379219741498529065404389923036769080int,
    );
    let e2: nat = 2 * e1 + 1;
    lemma_ladder(
        3,
        e1,
        13452182770044294022912646275292715976146379219741498529065404389923036769080int,
        1,
        3,
        4636180461576445316777924001962474931638387751354534566877303987237072909014int,
    );
    let e3: nat = 2 * e2 + 0;
    lemma_ladder(
        3,
        e2,
        4636180461576445316777924001962474931638387751354534566877303987237072909014int,
        0,
        1,
        14262756038418302138324054826162014917301324725563271320201782704520245828440int,
    );
    let e4: nat = 2 * e3 + 0;
    lemma_ladder(
        3,
        e3,
        14262756038418302138324054826162014917301324725563271320201782704520245828440int,
        0,
        1,
        19466661760291768077717897249940266451703676944353197168932130539547588402532int,
    );
    let e5: nat = 2 * e4 + 0;
    lemma_ladder(
        3,
        e4,
        19466661760291768077717897249940266451703676944353197168932130539547588402532int,
        0,
        1,
        15588921985324929542434208814573515189799875579107070577247912777931595203114int,
    );
    let e6: nat = 2 * e5 + 1;
    lemma_ladder(
        3,
        e5,
        15588921985324929542434208814573515189799875579107070577247912777931595203114int,
        1,
        3,
        13730166997531562969275183085734967120839699409997043293315603365252680598247int,
    );
    let e7: nat = 2 * e6 + 0;
    lemma_ladder(
        3,
        e6,
        13730166997531562969275183085734967120839699409997043293315603365252680598247int,
        0,
        1,
        545269628136161459435088685437913647547992677231835590869498108774051257987int,
    );
    let e8: nat = 2 * e7 + 1;
    lemma_ladder(
        3,
        e7,
        545269628136161459435088685437913647547992677231835590869498108774051257987int,
        1,
        3,
        15185746406806946232951185042171064664075073082813570819775697530905910737515int,
    );
    let e9: nat = 2 * e8 + 0;
    lemma_ladder(
        3,
        e8,
        15185746406806946232951185042171064664075073082813570819775697530905910737515int,
        0,
        1,
        8755099705548875611198424448695035922842932665587909223775711240733947156426int,
    );
    let e10: nat = 2 * e9 + 0;
    lemma_ladder(
        3,
        e9,
        8755099705548875611198424448695035922842932665587909223775711240733947156426int,
        0,
        1,
        17653395486605348162874342000333763172349301205244925011944614387683043731672int,
    );
    let e11: nat = 2 * e10 + 0;
    lemma_ladder(
        3,
        e10,
        17653395486605348162874342000333763172349301205244925011944614387683043731672int,
        0,
        1,
        16354559259874637508827810367017071632448722404944332462739563200021698482425int,
    );
    let e12: nat = 2 * e11 + 0;
    lemma_ladder(
        3,
        e11,
        16354559259874637508827810367017071632448722404944332462739563200021698482425int,
        0,
        1,
        4449545578960229488216372304210960131213362768590890958894078570844356306222int,
    );
    let e13: nat = 2 * e12 + 1;
    lemma_ladder(
        3,
        e12,
        4449545578960229488216372304210960131213362768590890958894078570844356306222int,
        1,
        3,
        3101526082752462231334487819734654672453900079945700756899296990539684204506int,
    );
    let e14: nat = 2 * e13 + 1;
    lemma_ladder(
        3,
        e13,
        3101526082752462231334487819734654672453900079945700756899296990539684204506int,
        1,
        3,
        20470738612623887647184097607490397067629851488190709193935184762084521865672int,
    );
    let e15: nat = 2 * e14 + 1;
    lemma_ladder(
        3,
        e14,
        20470738612623887647184097607490397067629851488190709193935184762084521865672int,
        1,
        3,
        18245437936985385875219630591412331965894501129933784671728037092061663228915int,
    );
    let e16: nat = 2 * e15 + 1;
    lemma_ladder(
        3,
        e15,
        18245437936985385875219630591412331965894501129933784671728037092061663228915int,
        1,
        3,
        9550563762125788158966307105133681219818855422899913415348743485877572212271int,
    );
    let e17: nat = 2 * e16 + 1;
    lemma_ladder(
        3,
        e16,
        9550563762125788158966307105133681219818855422899913415348743485877572212271int,
        1,
        3,
        17109991323284145948500077961918713426105271110305041171507059110040919908112int,
    );
    let e18: nat = 2 * e17 + 0;
    lemma_ladder(
        3,
        e17,
        17109991323284145948500077961918713426105271110305041171507059110040919908112int,
        0,
        1,
        6962823605400545012628153071537818478681818096155884456294871059248714479275int,
    );
    let e19: nat = 2 * e18 + 0;
    lemma_ladder(
        3,
        e18,
        6962823605400545012628153071537818478681818096155884456294871059248714479275int,
        0,
        1,
        18502228054310456127365790262327636402183968846661405705045778250803962750580int,
    );
    let e20: nat = 2 * e19 + 0;
    lemma_ladder(
        3,
        e19,
        18502228054310456127365790262327636402183968846661405705045778250803962750580int,
        0,
        1,
        75924178716194777544486559374326301134273862380559162747564677724016153660int,
    );
    let e21: nat = 2 * e20 + 0;
    lemma_ladder(
        3,
        e20,
        75924178716194777544486559374326301134273862380559162747564677724016153660int,
        0,
        1,
        13430535347827504777613094079688119910102690987758618046741020672779204996594int,
    );
    let e22: nat = 2 * e21 + 1;
    lemma_ladder(
        3,
        e21,
        13430535347827504777613094079688119910102690987758618046741020672779204996594int,
        1,
        3,
        16757570028780511085110619294551279269440403068937491710944790281663542213374int,
    );
    let e23: nat = 2 * e22 + 1;
    lemma_ladder(
        3,
        e22,
        16757570028780511085110619294551279269440403068937491710944790281663542213374int,
        1,
        3,
        10123166128992849220074441278662048889336598521232397070240154343455885545653int,
    );
}

/// The power of three after 230 bits of the exponent.
proof fn lemma_power_of_three_9()
    ensures
        pow(3, 1304640941133455945387268408850269024881623053575517794114244233761776nat) % modulus() == 20224754776728966975668813844192459700877384761653386563129186538794340977539int,
{
    lemma_power_of_three_8();
    let e0: nat = 155525319711381905721100379091533306226923829743327831520348099nat;
    let e1: nat = 2 * e0 + 1;
    lemma_ladder(
        3,
        e0,
        10123166128992849220074441278662048889336598521232397070240154343455885545653int,
        1,
        3,
        20176936967228805477909565479576387257170174487643929218920513155600973168463int,
    );
    let e2: nat = 2 * e1 + 1;
    lemma_ladder(
        3,
        e1,
        20176936967228805477909565479576387257170174487643929218920513155600973168463int,
        1,
        3,
        12421485235582602772531540597459667134673578884508163575939838972300420741712int,
    );
    let e3: nat = 2 * e2 + 1;
    lemma_ladder(
        3,
        e2,
        12421485235582602772531540597459667134673578884508163575939838972300420741712int,
        1,
        3,
        20229118793027043944870694421010562598217394145120028877751113211357527513191int,
    );
    let e4: nat = 2 * e3 + 0;
    lemma_ladder(
        3,
        e3,
        20229118793027043944870694421010562598217394145120028877751113211357527513191int,
        0,
        1,
        3792720956025972393321893727984724865684863829322309936771407527356749413652int,
    );
    let e5: nat = 2 * e4 + 1;
    lemma_ladder(
        3,
        e4,
        3792720956025972393321893727984724865684863829322309936771407527356749413652int,
        1,
        3,
        7283221476337923040539597140963200287385806392427871265155667869403953168504int,
    );
    let e6: nat = 2 * e5 + 0;
    lemma_ladder(
        3,
        e5,
        7283221476337923040539597140963200287385806392427871265155667869403953168504int,
        0,
        1,
        8855108262074615115933154067146298215736078145407569820791275758313776107772int,
    );
    let e7: nat = 2 * e6 + 1;
    lemma_ladder(
        3,
        e6,
        8855108262074615115933154067146298215736078145407569820791275758313776107772int,
        1,
        3,
        1682202107828783308042064262218775209361336548600722253514425216129439570080int,
    );
    let e8: nat = 2 * e7 + 1;
    lemma_ladder(
        3,
        e7,
        1682202107828783308042064262218775209361336548600722253514425216129439570080int,
        1,
        3,
        19637902629515860225748863462241723578066262319774086660181221520041872210883int,
    );
    let e9: nat = 2 * e8 + 0;
    lemma_ladder(
        3,
        e8,
        19637902629515860225748863462241723578066262319774086660181221520041872210883int,
        0,
        1,
        401771810154277526794256765287854029658825515171944046254620274159161662733int,
    );
    let e10: nat = 2 * e9 + 0;
    lemma_ladder(
        3,
        e9,
        401771810154277526794256765287854029658825515171944046254620274159161662733int,
        0,
        1,
        1059270547108765419188788113547898271082167893533089327495249324148334046460int,
    );
    let e11: nat = 2 * e10 + 1;
    lemma_ladder(
        3,
        e10,
        1059270547108765419188788113547898271082167893533089327495249324148334046460int,
        1,
        3,
        21830812466194783702024708667598539749599679233187678946486259287165942985033int,
    );
    let e12: nat = 2 * e11 + 0;
    lemma_ladder(
        3,
        e11,
        21830812466194783702024708667598539749599679233187678946486259287165942985033int,
        0,
        1,
        5928815660171064668691023226866249269938650407046017783213018852305685295328int,
    );
    let e13: nat = 2 * e12 + 0;
    lemma_ladder(
        3,
        e12,
        5928815660171064668691023226866249269938650407046017783213018852305685295328int,
        0,
        1,
        15154131435745762195382390248857298250085318488202414151454762013760427613244int,
    );
    let e14: nat = 2 * e13 + 1;
    lemma_ladder(
        3,
        e13,
        15154131435745762195382390248857298250085318488202414151454762013760427613244int,
        1,
        3,
        11086105456113418600111881205422251363582312029841230709411504322720232172837int,
    );
    let e15: nat = 2 * e14 + 1;
    lemma_ladder(
        3,
        e14,
        11086105456113418600111881205422251363582312029841230709411504322720232172837int,
        1,
        3,
        7492093236718002692084599018018150018656563413044749238944445983325631632907int,
    );
    let e16: nat = 2 * e15 + 1;
    lemma_ladder(
        3,
        e15,
        7492093236718002692084599018018150018656563413044749238944445983325631632907int,
        1,
        3,
        11989648119361937563944939843965927618766359772100727087198888364304720397727int,
    );
    let e17: nat = 2 * e16 + 1;
    lemma_ladder(
        3,
        e16,
        11989648119361937563944939843965927618766359772100727087198888364304720397727int,
        1,
        3,
        269347364310521748433340430964957636619826654719341072386318343133958505493int,
    );
    let e18: nat = 2 * e17 + 1;
    lemma_ladder(
        3,
        e17,
        269347364310521748433340430964957636619826654719341072386318343133958505493int,
        1,
        3,
        1469005487002311968279710232503070924256955716877613824787997716792040959580int,
    );
    let e19: nat = 2 * e18 + 1;
    lemma_ladder(
        3,
        e18,
        1469005487002311968279710232503070924256955716877613824787997716792040959580int,
        1,
        3,
        17377242362522650510855939341027673608389522591299549091156580182940587522700int,
    );
    let e20: nat = 2 * e19 + 0;
    lemma_ladder(
        3,
        e19,
        17377242362522650510855939341027673608389522591299549091156580182940587522700int,
        0,
        1,
        17676189664904260977413140247651607616843189567765153158522651459580823988490int,
    );
    let e21: nat = 2 * e20 + 0;
    lemma_ladder(
        3,
        e20,
        17676189664904260977413140247651607616843189567765153158522651459580823988490int,
        0,
        1,
        17871583364337180236369199240147058132755857137003417906535287519073527763468int,
    );
    let e22: nat = 2 * e21 + 0;
    lemma_ladder(
        3,
        e21,
        17871583364337180236369199240147058132755857137003417906535287519073527763468int,
        0,
        1,
        14335405403395529665441045253129167089740675300686755649020379821520917143293int,
    );
    let e23: nat = 2 * e22 + 0;
    lemma_ladder(
        3,
        e22,
        14335405403395529665441045253129167089740675300686755649020379821520917143293int,
        0,
        1,
        20224754776728966975668813844192459700877384761653386563129186538794340977539int,
    );
}

/// The power of three after 253 bits of the exponent.
proof fn lemma_power_of_three_10()
    ensures
        pow(3, 10944121435919637611123202872628637544274182200208017171849102093287904247808nat) % modulus() == 1int,
{
    lemma_power_of_three_9();
    let e0: nat = 1304640941133455945387268408850269024881623053575517794114244233761776nat;
    let e1: nat = 2 * e0 + 0;
    lemma_ladder(
        3,
        e0,
        20224754776728966975668813844192459700877384761653386563129186538794340977539int,
        0,
        1,
        19155701495332942035010346310102182943131692358808033873121661027897782602456int,
    );
    let e2: nat = 2 * e1 + 0;
    lemma_ladder(
        3,
        e1,
        19155701495332942035010346310102182943131692358808033873121661027897782602456int,
        0,
        1,
        20938851091300987003133372581967388870027272430743548724885430807730899215611int,
    );
    let e3: nat = 2 * e2 + 0;
    lemma_ladder(
        3,
        e2,
        20938851091300987003133372581967388870027272430743548724885430807730899215611int,
        0,
        1,
        5850670019067827500995430916301029330953834901649933975417707602053965050031int,
    );
    let e4: nat = 2 * e3 + 0;
    lemma_ladder(
        3,
        e3,
        5850670019067827500995430916301029330953834901649933975417707602053965050031int,
        0,
        1,
        15362058840010244029161208606829672577968497366347264505419120756171426455231int,
    );
    let e5: nat = 2 * e4 + 0;
    lemma_ladder(
        3,
        e4,
        15362058840010244029161208606829672577968497366347264505419120756171426455231int,
        0,
        1,
        15622351032122480667326388255255963645277373859436011506324461224122789463353int,
    );
    let e6: nat = 2 * e5 + 0;
    lemma_ladder(
        3,
        e5,
        15622351032122480667326388255255963645277373859436011506324461224122789463353int,
        0,
        1,
        6256441384699861885310962928435543045453127059354679201357460590337834442346int,
    );
    let e7: nat = 2 * e6 + 0;
    lemma_ladder(
        3,
        e6,
        6256441384699861885310962928435543045453127059354679201357460590337834442346int,
        0,
        1,
        6809717430913043451986919608489796957694066751530655466579766552716032921460int,
    );
    let e8: nat = 2 * e7 + 0;
    lemma_ladder(
        3,
        e7,
        6809717430913043451986919608489796957694066751530655466579766552716032921460int,
        0,
        1,
        6944072992813930776128629445505471595130910072271528833427084117549046903887int,
    );
    let e9: nat = 2 * e8 + 0;
    lemma_ladder(
        3,
        e8,
        6944072992813930776128629445505471595130910072271528833427084117549046903887int,
        0,
        1,
        9887545625669607929549106209523475278380950440152385854078344168413672161666int,
    );
    let e10: nat = 2 * e9 + 0;
    lemma_ladder(
        3,
        e9,
        9887545625669607929549106209523475278380950440152385854078344168413672161666int,
        0,
        1,
        16811588478733298250222044555242781215152762488163813785438167303740947268231int,
    );
    let e11: nat = 2 * e10 + 0;
    lemma_ladder(
        3,
        e10,
        16811588478733298250222044555242781215152762488163813785438167303740947268231int,
        0,
        1,
        862885401197729929082352480715660791162073055920426913914980002419532113261int,
    );
    let e12: nat = 2 * e11 + 0;
    lemma_ladder(
        3,
        e11,
        862885401197729929082352480715660791162073055920426913914980002419532113261int,
        0,
        1,
        3439443275069377707969013535076263842663098399226233301146540778138217335507int,
    );
    let e13: nat = 2 * e12 + 0;
    lemma_ladder(
        3,
        e12,
        3439443275069377707969013535076263842663098399226233301146540778138217335507int,
        0,
        1,
        4347172550669494333325435836820977285288574012002309963611688635077133252790int,
    );
    let e14: nat = 2 * e13 + 0;
    lemma_ladder(
        3,
        e13,
        4347172550669494333325435836820977285288574012002309963611688635077133252790int,
        0,
        1,
        5783238342255711027441096597752256748494941175389883528855451675780857772660int,
    );
    let e15: nat = 2 * e14 + 0;
    lemma_ladder(
        3,
        e14,
        5783238342255711027441096597752256748494941175389883528855451675780857772660int,
        0,
        1,
        15952175509706783602085793628672704178888286367567198011768512910043377229215int,
    );
    let e16: nat = 2 * e15 + 0;
    lemma_ladder(
        3,
        e15,
        15952175509706783602085793628672704178888286367567198011768512910043377229215int,
        0,
        1,
        1103316787984937283682488727499410572714992550365580715939395910070394190096int,
    );
    let e17: nat = 2 * e16 + 0;
    lemma_ladder(
        3,
        e16,
        1103316787984937283682488727499410572714992550365580715939395910070394190096int,
        0,
        1,
        2283482550034800628111070180390673268453179470922704452226293886212258993410int,
    );
    let e18: nat = 2 * e17 + 0;
    lemma_ladder(
        3,
        e17,
        2283482550034800628111070180390673268453179470922704452226293886212258993410int,
        0,
        1,
        4183653929190742691274098379026487729755080010366834215927449156672627370084int,
    );
    let e19: nat = 2 * e18 + 0;
    lemma_ladder(
        3,
        e18,
        4183653929190742691274098379026487729755080010366834215927449156672627370084int,
        0,
        1,
        1307561275430600547084599052067232502310777467428991595475612152992795732190int,
    );
    let e20: nat = 2 * e19 + 0;
    lemma_ladder(
        3,
        e19,
        1307561275430600547084599052067232502310777467428991595475612152992795732190int,
        0,
        1,
        8613538655231327379234925296132678673308827349856085326283699237864372525723int,
    );
    let e21: nat = 2 * e20 + 0;
    lemma_ladder(
        3,
        e20,
        8613538655231327379234925296132678673308827349856085326283699237864372525723int,
        0,
        1,
        4407920970296243842541313971887945403937097133418418784715int,
    );
    let e22: nat = 2 * e21 + 0;
    lemma_ladder(
        3,
        e21,
        4407920970296243842541313971887945403937097133418418784715int,
        0,
        1,
        21888242871839275222246405745257275088548364400416034343698204186575808495616int,
    );
    let e23: nat = 2 * e22 + 0;
    lemma_ladder(
        3,
        e22,
        21888242871839275222246405745257275088548364400416034343698204186575808495616int,
        0,
        1,
        1int,
    );
}

/// Three raised to half the order of the multiplicative group.
pub proof fn lemma_euler_power_of_three()
    ensures
        euler_power(3) == 1,
{
    lemma_power_of_three_10();
}

/// The power of five after 23 bits of the exponent.
proof fn lemma_power_of_five_0()
    ensures
        pow(5, 6342812nat) % modulus() == 13303024678402357067881050831514186660851055263792380000524303997366585537642int,
{
    lemma_pow0(5);
    lemma_small_mod(1, modulus() as nat);
    let e0: nat = 0nat;
    let e1: nat = 2 * e0 + 1;
    lemma_ladder(
        5,
        e0,
        1int,
        1,
        5,
        5int,
    );
    let e2: nat = 2 * e1 + 1;
    lemma_ladder(
        5,
        e1,
        5int,
        1,
        5,
        125int,
    );
    let e3: nat = 2 * e2 + 0;
    lemma_ladder(
        5,
        e2,
        125int,
        0,
        1,
        15625int,
    );
    let e4: nat = 2 * e3 + 0;
    lemma_ladder(
        5,
        e3,
        15625int,
        0,
        1,
        244140625int,
    );
    let e5: nat = 2 * e4 + 0;
    lemma_ladder(
        5,
        e4,
        244140625int,
        0,
        1,
        59604644775390625int,
    );
    let e6: nat = 2 * e5 + 0;
    lemma_ladder(
        5,
        e5,
        59604644775390625int,
        0,
        1,
        3552713678800500929355621337890625int,
    );
    let e7: nat = 2 * e6 + 0;
    lemma_ladder(
        5,
        e6,
        3552713678800500929355621337890625int,
        0,
        1,
        12621774483536188886587657044524579674771302961744368076324462890625int,
    );
    let e8: nat = 2 * e7 + 1;
    lemma_ladder(
        5,
        e7,
        12621774483536188886587657044524579674771302961744368076324462890625int,
        1,
        5,
        2991929879735057523868396922015084479678622598402138329308152848660021117502int,
    );
    let e9: nat = 2 * e8 + 1;
    lemma_ladder(
        5,
        e8,
        2991929879735057523868396922015084479678622598402138329308152848660021117502int,
        1,
        5,
        9086614246629678409901891358980307970763007317620017294639366207294686486377int,
    );
    let e10: nat = 2 * e9 + 0;
    lemma_ladder(
        5,
        e9,
        9086614246629678409901891358980307970763007317620017294639366207294686486377int,
        0,
        1,
        7655004590256582837831759880035028699545382017496924375072382483157270584848int,
    );
    let e11: nat = 2 * e10 + 0;
    lemma_ladder(
        5,
        e10,
        7655004590256582837831759880035028699545382017496924375072382483157270584848int,
        0,
        1,
        10118806719999753037317420377352818840499121470791962699347781691408433115656int,
    );
    let e12: nat = 2 * e11 + 1;
    lemma_ladder(
        5,
        e11,
        10118806719999753037317420377352818840499121470791962699347781691408433115656int,
        1,
        5,
        3042291565223799951084232563347160825850174098831408571982052294029710281063int,
    );
    let e13: nat = 2 * e12 + 0;
    lemma_ladder(
        5,
        e12,
        3042291565223799951084232563347160825850174098831408571982052294029710281063int,
        0,
        1,
        7122149797049657406560069179679128750064069009214282033263205883947167685589int,
    );
    let e14: nat = 2 * e13 + 0;
    lemma_ladder(
        5,
        e13,
        7122149797049657406560069179679128750064069009214282033263205883947167685589int,
        0,
        1,
        1529073607188199410183149168738248905581602555356055434634892474431355010581int,
    );
    let e15: nat = 2 * e14 + 0;
    lemma_ladder(
        5,
        e14,
        1529073607188199410183149168738248905581602555356055434634892474431355010581int,
        0,
        1,
        12297235000778679379901295332704406543745991594807150645765497419989496802705int,
    );
    let e16: nat = 2 * e15 + 1;
    lemma_ladder(
        5,
        e15,
        12297235000778679379901295332704406543745991594807150645765497419989496802705int,
        1,
        5,
        4606544259971461097690788520481542747903202904205796649569444190604817985365int,
    );
    let e17: nat = 2 * e16 + 0;
    lemma_ladder(
        5,
        e16,
        4606544259971461097690788520481542747903202904205796649569444190604817985365int,
        0,
        1,
        3116273844467330801829001622792568843079926253117073339408483697909462424626int,
    );
    let e18: nat = 2 * e17 + 0;
    lemma_ladder(
        5,
        e17,
        3116273844467330801829001622792568843079926253117073339408483697909462424626int,
        0,
        1,
        12301284706844877689472251122113057448755843976851070785641120989993949132946int,
    );
    let e19: nat = 2 * e18 + 1;
    lemma_ladder(
        5,
        e18,
        12301284706844877689472251122113057448755843976851070785641120989993949132946int,
        1,
        5,
        12384734674643876687513809576297345909179461560798131596301331298515161767594int,
    );
    let e20: nat = 2 * e19 + 1;
    lemma_ladder(
        5,
        e19,
        12384734674643876687513809576297345909179461560798131596301331298515161767594int,
        1,
        5,
        13766186643136319530030034772525109489671346299228302054347082538709810815101int,
    );
    let e21: nat = 2 * e20 + 1;
    lemma_ladder(
        5,
        e20,
        13766186643136319530030034772525109489671346299228302054347082538709810815101int,
        1,
        5,
        9584622151981067344174680760542456094210385546162912082661108929439870980748int,
    );
    let e22: nat = 2 * e21 + 0;
    lemma_ladder(
        5,
        e21,
        9584622151981067344174680760542456094210385546162912082661108929439870980748int,
        0,
        1,
        11958847517414781215061269953450853392437724657183239622145513938599101632571int,
    );
    let e23: nat = 2 * e22 + 0;
    lemma_ladder(
        5,
        e22,
        11958847517414781215061269953450853392437724657183239622145513938599101632571int,
        0,
        1,
        13303024678402357067881050831514186660851055263792380000524303997366585537642int,
    );
}

/// The power of five after 46 bits of the exponent.
proof fn lemma_power_of_five_1()
    ensures
        pow(5, 53207371014449nat) % modulus() == 1985828755570259780477591220750285835580189302113596682743569617406275254678int,
{
    lemma_power_of_five_0();
    let e0: nat = 6342812nat;
    let e1: nat = 2 * e0 + 1;
    lemma_ladder(
        5,
        e0,
        13303024678402357067881050831514186660851055263792380000524303997366585537642int,
        1,
        5,
        20040783437690051195720545013349594865689622496537124593190758022507463079542int,
    );
    let e2: nat = 2 * e1 + 1;
    lemma_ladder(
        5,
        e1,
        20040783437690051195720545013349594865689622496537124593190758022507463079542int,
        1,
        5,
        517373029847386283780060741626053464129344970908342161092808690292186612163int,
    );
    let e3: nat = 2 * e2 + 1;
    lemma_ladder(
        5,
        e2,
        517373029847386283780060741626053464129344970908342161092808690292186612163int,
        1,
        5,
        6333763033519229937480232744617183760288677384776897396116088586793729973950int,
    );
    let e4: nat = 2 * e3 + 0;
    lemma_ladder(
        5,
        e3,
        6333763033519229937480232744617183760288677384776897396116088586793729973950int,
        0,
        1,
        7690438287622848329614943961937105123184256205562669988948976123986827702753int,
    );
    let e5: nat = 2 * e4 + 0;
    lemma_ladder(
        5,
        e4,
        7690438287622848329614943961937105123184256205562669988948976123986827702753int,
        0,
        1,
        19318448738178075345223295834845326229756525561171846067654581471609418551232int,
    );
    let e6: nat = 2 * e5 + 1;
    lemma_ladder(
        5,
        e5,
        19318448738178075345223295834845326229756525561171846067654581471609418551232int,
        1,
        5,
        14569735884458382856254784209912830376236225605784403836765118408925324734017int,
    );
    let e7: nat = 2 * e6 + 0;
    lemma_ladder(
        5,
        e6,
        14569735884458382856254784209912830376236225605784403836765118408925324734017int,
        0,
        1,
        19577141621140546406115453347575922078242058940758348805705073547085318911838int,
    );
    let e8: nat = 2 * e7 + 1;
    lemma_ladder(
        5,
        e7,
        19577141621140546406115453347575922078242058940758348805705073547085318911838int,
        1,
        5,
        12411970105217706472768188593502426109912322134829529597634729915373595758420int,
    );
    let e9: nat = 2 * e8 + 1;
    lemma_ladder(
        5,
        e8,
        12411970105217706472768188593502426109912322134829529597634729915373595758420int,
        1,
        5,
        21172974762150236351675298579926619215960894533394805176459777030753919109663int,
    );
    let e10: nat = 2 * e9 + 1;
    lemma_ladder(
        5,
        e9,
        21172974762150236351675298579926619215960894533394805176459777030753919109663int,
        1,
        5,
        10515933692801596054137274619403467303992730962120133861438972633219469456172int,
    );
    let e11: nat = 2 * e10 + 0;
    lemma_ladder(
        5,
        e10,
        10515933692801596054137274619403467303992730962120133861438972633219469456172int,
        0,
        1,
        9458403882487798320989734553303156254010260864667099454899640419026475187093int,
    );
    let e12: nat = 2 * e11 + 0;
    lemma_ladder(
        5,
        e11,
        9458403882487798320989734553303156254010260864667099454899640419026475187093int,
        0,
        1,
        11297171731425186754294730293891706400987843711387442967510761118758811754647int,
    );
    let e13: nat = 2 * e12 + 0;
    lemma_ladder(
        5,
        e12,
        11297171731425186754294730293891706400987843711387442967510761118758811754647int,
        0,
        1,
        13809016538662828225338175668125219193193832970798925990382158412793550873660int,
    );
    let e14: nat = 2 * e13 + 0;
    lemma_ladder(
        5,
        e13,
        13809016538662828225338175668125219193193832970798925990382158412793550873660int,
        0,
        1,
        15364255734425713002718835933644000406291089247791499507392333308306132147049int,
    );
    let e15: nat = 2 * e14 + 1;
    lemma_ladder(
        5,
        e14,
        15364255734425713002718835933644000406291089247791499507392333308306132147049int,
        1,
        5,
        9107577473661076821685658970173582713612041646245702661643463558467498237606int,
    );
    let e16: nat = 2 * e15 + 0;
    lemma_ladder(
        5,
        e15,
        9107577473661076821685658970173582713612041646245702661643463558467498237606int,
        0,
        1,
        20403166222392752747685602193085449294747491361186384405037084150280897475718int,
    );
    let e17: nat = 2 * e16 + 0;
    lemma_ladder(
        5,
        e16,
        20403166222392752747685602193085449294747491361186384405037084150280897475718int,
        0,
        1,
        18899623483755343537908555377327096240498084199432272473700960667656262573404int,
    );
    let e18: nat = 2 * e17 + 1;
    lemma_ladder(
        5,
        e17,
        18899623483755343537908555377327096240498084199432272473700960667656262573404int,
        1,
        5,
        9915302353866463282044221001597139702102547599566625451143944039358989129856int,
    );
    let e19: nat = 2 * e18 + 1;
    lemma_ladder(
        5,
        e18,
        9915302353866463282044221001597139702102547599566625451143944039358989129856int,
        1,
        5,
        3790144017414292299573907683648932946391382732421517268482886579952542944303int,
    );
    let e20: nat = 2 * e19 + 0;
    lemma_ladder(
        5,
        e19,
        3790144017414292299573907683648932946391382732421517268482886579952542944303int,
        0,
        1,
        2658768737778562100214657622639750149280600063033237691312344214699873724107int,
    );
    let e21: nat = 2 * e20 + 0;
    lemma_ladder(
        5,
        e20,
        2658768737778562100214657622639750149280600063033237691312344214699873724107int,
        0,
        1,
        111124389537561438263594540511358885296085617542693548002165287496287993855int,
    );
    let e22: nat = 2 * e21 + 0;
    lemma_ladder(
        5,
        e21,
        111124389537561438263594540511358885296085617542693548002165287496287993855int,
        0,
        1,
        10013671365415589539201407492754203210643547010114855874351378195379236706658int,
    );
    let e23: nat = 2 * e22 + 1;
    lemma_ladder(
        5,
        e22,
        10013671365415589539201407492754203210643547010114855874351378195379236706658int,
        1,
        5,
        1985828755570259780477591220750285835580189302113596682743569617406275254678int,
    );
}

/// The power of five after 69 bits of the exponent.
proof fn lemma_power_of_five_2()
    ensures
        pow(5, 446335778150780245212nat) % modulus() == 21874273728822463733401318157604561819725490105559641109087200596869146930838int,
{
    lemma_power_of_five_1();
    let e0: nat = 53207371014449nat;
    let e1: nat = 2 * e0 + 1;
    lemma_ladder(
        5,
        e0,
        1985828755570259780477591220750285835580189302113596682743569617406275254678int,
        1,
        5,
        17645178501713236362994384307491658037761827012840148984742895283236841840557int,
    );
    let e2: nat = 2 * e1 + 0;
    lemma_ladder(
        5,
        e1,
        17645178501713236362994384307491658037761827012840148984742895283236841840557int,
        0,
        1,
        13924236717718537588455433715289785494606539113803664415968725528753377802996int,
    );
    let e3: nat = 2 * e2 + 1;
    lemma_ladder(
        5,
        e2,
        13924236717718537588455433715289785494606539113803664415968725528753377802996int,
        1,
        5,
        10783696055532049719109712848731009853889929231726391350409941317125095091687int,
    );
    let e4: nat = 2 * e3 + 0;
    lemma_ladder(
        5,
        e3,
        10783696055532049719109712848731009853889929231726391350409941317125095091687int,
        0,
        1,
        11002182945649987039072246088824604219068541423759077798964713693363795858217int,
    );
    let e5: nat = 2 * e4 + 0;
    lemma_ladder(
        5,
        e4,
        11002182945649987039072246088824604219068541423759077798964713693363795858217int,
        0,
        1,
        19627518239273649483123399316865733161363090643810843153343310046356858540567int,
    );
    let e6: nat = 2 * e5 + 0;
    lemma_ladder(
        5,
        e5,
        19627518239273649483123399316865733161363090643810843153343310046356858540567int,
        0,
        1,
        9961306163772677657354670271274353206080031756227339378037966581156943093855int,
    );
    let e7: nat = 2 * e6 + 0;
    lemma_ladder(
        5,
        e6,
        9961306163772677657354670271274353206080031756227339378037966581156943093855int,
        0,
        1,
        2402354128223672328358869780121422578622443142442801963686561454147809696357int,
    );
    let e8: nat = 2 * e7 + 0;
    lemma_ladder(
        5,
        e7,
        2402354128223672328358869780121422578622443142442801963686561454147809696357int,
        0,
        1,
        19147733806758881599273771429250252088559048563967911587232422304799831638984int,
    );
    let e9: nat = 2 * e8 + 0;
    lemma_ladder(
        5,
        e8,
        19147733806758881599273771429250252088559048563967911587232422304799831638984int,
        0,
        1,
        16988927606423943215217581160278232743853744986744542970638957879383959618939int,
    );
    let e10: nat = 2 * e9 + 0;
    lemma_ladder(
        5,
        e9,
        16988927606423943215217581160278232743853744986744542970638957879383959618939int,
        0,
        1,
        21806673624354611039148956245132143702765935739928969707755053895357396695276int,
    );
    let e11: nat = 2 * e10 + 1;
    lemma_ladder(
        5,
        e10,
        21806673624354611039148956245132143702765935739928969707755053895357396695276int,
        1,
        5,
        3886134410982702694554336166722418704666193174880187586743526178045498209802int,
    );
    let e12: nat = 2 * e11 + 0;
    lemma_ladder(
        5,
        e11,
        3886134410982702694554336166722418704666193174880187586743526178045498209802int,
        0,
        1,
        7013649282038711802352640860150828226913060073931972169896723395637144313821int,
    );
    let e13: nat = 2 * e12 + 1;
    lemma_ladder(
        5,
        e12,
        7013649282038711802352640860150828226913060073931972169896723395637144313821int,
        1,
        5,
        5389561960206242534628687292153333545289860143924844083492859571833360112251int,
    );
    let e14: nat = 2 * e13 + 0;
    lemma_ladder(
        5,
        e13,
        5389561960206242534628687292153333545289860143924844083492859571833360112251int,
        0,
        1,
        11961099747913807526450776722831000585539028762277458679754067878739420361781int,
    );
    let e15: nat = 2 * e14 + 0;
    lemma_ladder(
        5,
        e14,
        11961099747913807526450776722831000585539028762277458679754067878739420361781int,
        0,
        1,
        11272276662310496532619612006108119513586372798821762845622598892375354286427int,
    );
    let e16: nat = 2 * e15 + 1;
    lemma_ladder(
        5,
        e15,
        11272276662310496532619612006108119513586372798821762845622598892375354286427int,
        1,
        5,
        7968305385463580032146292235048651368006300469800061112993626492638717231385int,
    );
    let e17: nat = 2 * e16 + 1;
    lemma_ladder(
        5,
        e16,
        7968305385463580032146292235048651368006300469800061112993626492638717231385int,
        1,
        5,
        13492759649784138927086341966675994732824297375773982700312292986423762293475int,
    );
    let e18: nat = 2 * e17 + 0;
    lemma_ladder(
        5,
        e17,
        13492759649784138927086341966675994732824297375773982700312292986423762293475int,
        0,
        1,
        1569276261018675187248729677391383299235971489442036154489894725500970705527int,
    );
    let e19: nat = 2 * e18 + 1;
    lemma_ladder(
        5,
        e18,
        1569276261018675187248729677391383299235971489442036154489894725500970705527int,
        1,
        5,
        2603510155155449425351324680136310789914599518979895666700542175361390231641int,
    );
    let e20: nat = 2 * e19 + 1;
    lemma_ladder(
        5,
        e19,
        2603510155155449425351324680136310789914599518979895666700542175361390231641int,
        1,
        5,
        11407807887146229938213656067958629474834747117764936279872869141834883236830int,
    );
    let e21: nat = 2 * e20 + 1;
    lemma_ladder(
        5,
        e20,
        11407807887146229938213656067958629474834747117764936279872869141834883236830int,
        1,
        5,
        16846564404990918746782104413826645038280170970631193871073450776389774505604int,
    );
    let e22: nat = 2 * e21 + 0;
    lemma_ladder(
        5,
        e21,
        16846564404990918746782104413826645038280170970631193871073450776389774505604int,
        0,
        1,
        21373784337195923975864339142550288713389482724665095155306842961241933588690int,
    );
    let e23: nat = 2 * e22 + 0;
    lemma_ladder(
        5,
        e22,
        21373784337195923975864339142550288713389482724665095155306842961241933588690int,
        0,
        1,
        21874273728822463733401318157604561819725490105559641109087200596869146930838int,
    );
}

/// The power of five after 92 bits of the exponent.
proof fn lemma_power_of_five_3()
    ensures
        pow(5, 3744135879281860371228660077nat) % modulus() == 1897008295608758414913880655987115926583469289177217916197837672838270175639int,
{
    lemma_power_of_five_2();
    let e0: nat = 446335778150780245212nat;
    let e1: nat = 2 * e0 + 0;
    lemma_ladder(
        5,
        e0,
        21874273728822463733401318157604561819725490105559641109087200596869146930838int,
        0,
        1,
        13777896854708458835980331319073244619640746478316508530560495324217448643299int,
    );
    let e2: nat = 2 * e1 + 0;
    lemma_ladder(
        5,
        e1,
        13777896854708458835980331319073244619640746478316508530560495324217448643299int,
        0,
        1,
        8310956963783342700113311227805211034035998335634846619737571852114489834630int,
    );
    let e3: nat = 2 * e2 + 1;
    lemma_ladder(
        5,
        e2,
        8310956963783342700113311227805211034035998335634846619737571852114489834630int,
        1,
        5,
        6958729442595460936241306110494203910231619117573203440434701485717762793448int,
    );
    let e4: nat = 2 * e3 + 0;
    lemma_ladder(
        5,
        e3,
        6958729442595460936241306110494203910231619117573203440434701485717762793448int,
        0,
        1,
        16502609259198323201554641579931238458835997809478122212338335242405916677844int,
    );
    let e5: nat = 2 * e4 + 1;
    lemma_ladder(
        5,
        e4,
        16502609259198323201554641579931238458835997809478122212338335242405916677844int,
        1,
        5,
        9036257926491226812667754390463331337676149736936057219326007369931799649259int,
    );
    let e6: nat = 2 * e5 + 0;
    lemma_ladder(
        5,
        e5,
        9036257926491226812667754390463331337676149736936057219326007369931799649259int,
        0,
        1,
        13275452632767727852772573324609401131366873076839806315090641940206567284591int,
    );
    let e7: nat = 2 * e6 + 0;
    lemma_ladder(
        5,
        e6,
        13275452632767727852772573324609401131366873076839806315090641940206567284591int,
        0,
        1,
        2149761998594282150430838196351979013573779241086336538191591298524066185852int,
    );
    let e8: nat = 2 * e7 + 0;
    lemma_ladder(
        5,
        e7,
        2149761998594282150430838196351979013573779241086336538191591298524066185852int,
        0,
        1,
        8343872891997277668601868321862574652818926223018918269209044664331295966149int,
    );
    let e9: nat = 2 * e8 + 0;
    lemma_ladder(
        5,
        e8,
        8343872891997277668601868321862574652818926223018918269209044664331295966149int,
        0,
        1,
        2242496093322283183249880691717933844681648693069345059688582053818125947203int,
    );
    let e10: nat = 2 * e9 + 0;
    lemma_ladder(
        5,
        e9,
        2242496093322283183249880691717933844681648693069345059688582053818125947203int,
        0,
        1,
        11102716190453871714780277161061741783275290993337529463470546566756480224949int,
    );
    let e11: nat = 2 * e10 + 1;
    lemma_ladder(
        5,
        e10,
        11102716190453871714780277161061741783275290993337529463470546566756480224949int,
        1,
        5,
        6442470855383905836286902687643159318613867672263195349455021933190652994706int,
    );
    let e12: nat = 2 * e11 + 0;
    lemma_ladder(
        5,
        e11,
        6442470855383905836286902687643159318613867672263195349455021933190652994706int,
        0,
        1,
        4134476305357831057785045960074432485207368274479980272884084381762189469934int,
    );
    let e13: nat = 2 * e12 + 0;
    lemma_ladder(
        5,
        e12,
        4134476305357831057785045960074432485207368274479980272884084381762189469934int,
        0,
        1,
        13143251247562471277748239831026278817064498508278610220033467251065173988347int,
    );
    let e14: nat = 2 * e13 + 0;
    lemma_ladder(
        5,
        e13,
        13143251247562471277748239831026278817064498508278610220033467251065173988347int,
        0,
        1,
        1740740024008968821121144698782784920697749870579754949160292416606126097287int,
    );
    let e15: nat = 2 * e14 + 1;
    lemma_ladder(
        5,
        e14,
        1740740024008968821121144698782784920697749870579754949160292416606126097287int,
        1,
        5,
        2250391474282530620834413070697266893244574941973240985703427920235599892339int,
    );
    let e16: nat = 2 * e15 + 0;
    lemma_ladder(
        5,
        e15,
        2250391474282530620834413070697266893244574941973240985703427920235599892339int,
        0,
        1,
        18902839417881785115916266533065687752930047717524368274171973011827260007115int,
    );
    let e17: nat = 2 * e16 + 1;
    lemma_ladder(
        5,
        e16,
        18902839417881785115916266533065687752930047717524368274171973011827260007115int,
        1,
        5,
        19892089610898374722219151191961117824954156591960686773809378775366971110692int,
    );
    let e18: nat = 2 * e17 + 1;
    lemma_ladder(
        5,
        e17,
        19892089610898374722219151191961117824954156591960686773809378775366971110692int,
        1,
        5,
        2702345265797043866049274571736395695075512394095331363875766206105590938781int,
    );
    let e19: nat = 2 * e18 + 0;
    lemma_ladder(
        5,
        e18,
        2702345265797043866049274571736395695075512394095331363875766206105590938781int,
        0,
        1,
        19178591041621469129984540452322397774692614385901384055626428004830225526206int,
    );
    let e20: nat = 2 * e19 + 1;
    lemma_ladder(
        5,
        e19,
        19178591041621469129984540452322397774692614385901384055626428004830225526206int,
        1,
        5,
        2084194416648000928528537406468776091667240941797815725032282949259973261067int,
    );
    let e21: nat = 2 * e20 + 1;
    lemma_ladder(
        5,
        e20,
        2084194416648000928528537406468776091667240941797815725032282949259973261067int,
        1,
        5,
        21486132559747171456370716794948241790034655913773575583202432422811391482439int,
    );
    let e22: nat = 2 * e21 + 0;
    lemma_ladder(
        5,
        e21,
        21486132559747171456370716794948241790034655913773575583202432422811391482439int,
        0,
        1,
        18763103433686539336324106241819237136607115329443125241918923587356153491020int,
    );
    let e23: nat = 2 * e22 + 1;
    lemma_ladder(
        5,
        e22,
        18763103433686539336324106241819237136607115329443125241918923587356153491020int,
        1,
        5,
        1897008295608758414913880655987115926583469289177217916197837672838270175639int,
    );
}

/// The power of five after 115 bits of the exponent.
proof fn lemma_power_of_five_4()
    ensures
        pow(5, 31408088190030848164971707756458027nat) % modulus() == 12112347131626876739107866335767917125494924990519498911983918157765076808382int,
{
    lemma_power_of_five_3();
    let e0: nat = 3744135879281860371228660077nat;
    let e1: nat = 2 * e0 + 1;
    lemma_ladder(
        5,
        e0,
        1897008295608758414913880655987115926583469289177217916197837672838270175639int,
        1,
        5,
        14813525971648781834912506123465838311053330219062308586587401120808795393795int,
    );
    let e2: nat = 2 * e1 + 0;
    lemma_ladder(
        5,
        e1,
        14813525971648781834912506123465838311053330219062308586587401120808795393795int,
        0,
        1,
        20448453140214291789484296576729586162118613490594305482575206063405731450512int,
    );
    let e3: nat = 2 * e2 + 1;
    lemma_ladder(
        5,
        e2,
        20448453140214291789484296576729586162118613490594305482575206063405731450512int,
        1,
        5,
        8227965882085215199850605919532521153238133936551212815008082329725132611820int,
    );
    let e4: nat = 2 * e3 + 0;
    lemma_ladder(
        5,
        e3,
        8227965882085215199850605919532521153238133936551212815008082329725132611820int,
        0,
        1,
        2881883721072609712325316866366237489835685365567678584076244307168538071383int,
    );
    let e5: nat = 2 * e4 + 0;
    lemma_ladder(
        5,
        e4,
        2881883721072609712325316866366237489835685365567678584076244307168538071383int,
        0,
        1,
        9376517347857831937009618928236940371959486735826044671830336997827458174850int,
    );
    let e6: nat = 2 * e5 + 0;
    lemma_ladder(
        5,
        e5,
        9376517347857831937009618928236940371959486735826044671830336997827458174850int,
        0,
        1,
        13246191798445226434479132963975347816511682872356457779059312176322658712523int,
    );
    let e7: nat = 2 * e6 + 0;
    lemma_ladder(
        5,
        e6,
        13246191798445226434479132963975347816511682872356457779059312176322658712523int,
        0,
        1,
        13241399623058550348549708730369434085204263802428734325468725343276704638786int,
    );
    let e8: nat = 2 * e7 + 0;
    lemma_ladder(
        5,
        e7,
        13241399623058550348549708730369434085204263802428734325468725343276704638786int,
        0,
        1,
        4151345070395640496630571620801958731000786576625943959458466517423158779282int,
    );
    let e9: nat = 2 * e8 + 0;
    lemma_ladder(
        5,
        e8,
        4151345070395640496630571620801958731000786576625943959458466517423158779282int,
        0,
        1,
        1294007377075685471616421760603917760062792716786573274240018593023678294688int,
    );
    let e10: nat = 2 * e9 + 1;
    lemma_ladder(
        5,
        e9,
        1294007377075685471616421760603917760062792716786573274240018593023678294688int,
        1,
        5,
        12464739615718625832554523727207086231490959500634918140410800374504290636121int,
    );
    let e11: nat = 2 * e10 + 1;
    lemma_ladder(
        5,
        e10,
        12464739615718625832554523727207086231490959500634918140410800374504290636121int,
        1,
        5,
        15412629515265919864582318992846946957576990155909546365855103609664102320325int,
    );
    let e12: nat = 2 * e11 + 0;
    lemma_ladder(
        5,
        e11,
        15412629515265919864582318992846946957576990155909546365855103609664102320325int,
        0,
        1,
        4244047489830679837412336502700336895571201800826743654260154479515872562774int,
    );
    let e13: nat = 2 * e12 + 0;
    lemma_ladder(
        5,
        e12,
        4244047489830679837412336502700336895571201800826743654260154479515872562774int,
        0,
        1,
        14366811465435179739912877045164387184657053008517704811432583758608568101504int,
    );
    let e14: nat = 2 * e13 + 0;
    lemma_ladder(
        5,
        e13,
        14366811465435179739912877045164387184657053008517704811432583758608568101504int,
        0,
        1,
        4945528219670027244589637336847812033691749831762794040936622984559622225431int,
    );
    let e15: nat = 2 * e14 + 0;
    lemma_ladder(
        5,
        e14,
        4945528219670027244589637336847812033691749831762794040936622984559622225431int,
        0,
        1,
        18022798637748781615851785685508561089860271179423288774961794665820472087313int,
    );
    let e16: nat = 2 * e15 + 0;
    lemma_ladder(
        5,
        e15,
        18022798637748781615851785685508561089860271179423288774961794665820472087313int,
        0,
        1,
        14973606423224675525478976308096093271631645695350061913946509010511141402154int,
    );
    let e17: nat = 2 * e16 + 0;
    lemma_ladder(
        5,
        e16,
        14973606423224675525478976308096093271631645695350061913946509010511141402154int,
        0,
        1,
        754566290014599858376334434046059585607389134598520802583940160157671647970int,
    );
    let e18: nat = 2 * e17 + 1;
    lemma_ladder(
        5,
        e17,
        754566290014599858376334434046059585607389134598520802583940160157671647970int,
        1,
        5,
        17270008162749082263149874733279093680131595078605179081369836067898027019703int,
    );
    let e19: nat = 2 * e18 + 0;
    lemma_ladder(
        5,
        e18,
        17270008162749082263149874733279093680131595078605179081369836067898027019703int,
        0,
        1,
        5915476901930859928704177502088255460351166412522194297880312769266148432937int,
    );
    let e20: nat = 2 * e19 + 1;
    lemma_ladder(
        5,
        e19,
        5915476901930859928704177502088255460351166412522194297880312769266148432937int,
        1,
        5,
        14877337814407288427164769210593631855180454104414389173396301803105019657450int,
    );
    let e21: nat = 2 * e20 + 0;
    lemma_ladder(
        5,
        e20,
        14877337814407288427164769210593631855180454104414389173396301803105019657450int,
        0,
        1,
        6425611171681505176001267956657120053224756614331989312868608837284957809021int,
    );
    let e22: nat = 2 * e21 + 1;
    lemma_ladder(
        5,
        e21,
        6425611171681505176001267956657120053224756614331989312868608837284957809021int,
        1,
        5,
        11969324974846786871647695185550916944604590851467788346707104191238287664973int,
    );
    let e23: nat = 2 * e22 + 1;
    lemma_ladder(
        5,
        e22,
        11969324974846786871647695185550916944604590851467788346707104191238287664973int,
        1,
        5,
        12112347131626876739107866335767917125494924990519498911983918157765076808382int,
    );
}

/// The power of five after 138 bits of the exponent.
proof fn lemma_power_of_five_5()
    ensures
        pow(5, 263470139855598293163466987459485857337987nat) % modulus() == 9978142382581836083394488739391171229827799819935292177051107503295013014865int,
{
    lemma_power_of_five_4();
    let e0: nat = 31408088190030848164971707756458027nat;
    let e1: nat = 2 * e0 + 0;
    lemma_ladder(
        5,
        e0,
        12112347131626876739107866335767917125494924990519498911983918157765076808382int,
        0,
        1,
        6235542423257762679985462062249603924500269059883139203856808419138233360269int,
    );
    let e2: nat = 2 * e1 + 0;
    lemma_ladder(
        5,
        e1,
        6235542423257762679985462062249603924500269059883139203856808419138233360269int,
        0,
        1,
        17772940573227735660822313500887420407164849853616000784655108386543888319091int,
    );
    let e3: nat = 2 * e2 + 0;
    lemma_ladder(
        5,
        e2,
        17772940573227735660822313500887420407164849853616000784655108386543888319091int,
        0,
        1,
        5905003372224387228846613577227068724287036392824856617263206523973915967561int,
    );
    let e4: nat = 2 * e3 + 0;
    lemma_ladder(
        5,
        e3,
        5905003372224387228846613577227068724287036392824856617263206523973915967561int,
        0,
        1,
        9388030463842601508509987799449953095621855206276392747301323374395126523269int,
    );
    let e5: nat = 2 * e4 + 1;
    lemma_ladder(
        5,
        e4,
        9388030463842601508509987799449953095621855206276392747301323374395126523269int,
        1,
        5,
        4121184408547318004886339401385199239067306979052843057917033745533632198804int,
    );
    let e6: nat = 2 * e5 + 0;
    lemma_ladder(
        5,
        e5,
        4121184408547318004886339401385199239067306979052843057917033745533632198804int,
        0,
        1,
        18768133358106523373411654634717646896106986213984818118701124029201321608197int,
    );
    let e7: nat = 2 * e6 + 1;
    lemma_ladder(
        5,
        e6,
        18768133358106523373411654634717646896106986213984818118701124029201321608197int,
        1,
        5,
        12704883686463174763359334784411373322834660937612138441603138333735631782629int,
    );
    let e8: nat = 2 * e7 + 1;
    lemma_ladder(
        5,
        e7,
        12704883686463174763359334784411373322834660937612138441603138333735631782629int,
        1,
        5,
        9014737800327761011206845763225410927246347588089369988072136954934689066702int,
    );
    let e9: nat = 2 * e8 + 1;
    lemma_ladder(
        5,
        e8,
        9014737800327761011206845763225410927246347588089369988072136954934689066702int,
        1,
        5,
        19232234283075775320794180253668313355142242491941563953721682980441878357730int,
    );
    let e10: nat = 2 * e9 + 0;
    lemma_ladder(
        5,
        e9,
        19232234283075775320794180253668313355142242491941563953721682980441878357730int,
        0,
        1,
        19129979934757928616124920877211488417292764770213222532297807244005181690048int,
    );
    let e11: nat = 2 * e10 + 1;
    lemma_ladder(
        5,
        e10,
        19129979934757928616124920877211488417292764770213222532297807244005181690048int,
        1,
        5,
        5517217188276009377578658542007421826968391990017402123511112470792573750024int,
    );
    let e12: nat = 2 * e11 + 0;
    lemma_ladder(
        5,
        e11,
        5517217188276009377578658542007421826968391990017402123511112470792573750024int,
        0,
        1,
        749144926720765078926728136214448284211763949906018333354399445989652017190int,
    );
    let e13: nat = 2 * e12 + 0;
    lemma_ladder(
        5,
        e12,
        749144926720765078926728136214448284211763949906018333354399445989652017190int,
        0,
        1,
        20997934223330551481412086597529533695358858389087272108920626877728381583585int,
    );
    let e14: nat = 2 * e13 + 1;
    lemma_ladder(
        5,
        e13,
        20997934223330551481412086597529533695358858389087272108920626877728381583585int,
        1,
        5,
        12494802654227597455145297345515982409439655412167168111096214354004181857020int,
    );
    let e15: nat = 2 * e14 + 0;
    lemma_ladder(
        5,
        e14,
        12494802654227597455145297345515982409439655412167168111096214354004181857020int,
        0,
        1,
        21557933452595207642763345360774527844456422463976228734958767508658416555701int,
    );
    let e16: nat = 2 * e15 + 1;
    lemma_ladder(
        5,
        e15,
        21557933452595207642763345360774527844456422463976228734958767508658416555701int,
        1,
        5,
        5282122658673399898889802899433994604577084794991321475192892699498406521714int,
    );
    let e17: nat = 2 * e16 + 0;
    lemma_ladder(
        5,
        e16,
        5282122658673399898889802899433994604577084794991321475192892699498406521714int,
        0,
        1,
        5862382701982848145376714684281426968822743553856835784781070576629543989767int,
    );
    let e18: nat = 2 * e17 + 0;
    lemma_ladder(
        5,
        e17,
        5862382701982848145376714684281426968822743553856835784781070576629543989767int,
        0,
        1,
        16747659364652639747531990691648657637388461381937856284151428599921887086782int,
    );
    let e19: nat = 2 * e18 + 0;
    lemma_ladder(
        5,
        e18,
        16747659364652639747531990691648657637388461381937856284151428599921887086782int,
        0,
        1,
        3594609604481854206906020989070521313082116472571880773980016780044079804617int,
    );
    let e20: nat = 2 * e19 + 0;
    lemma_ladder(
        5,
        e19,
        3594609604481854206906020989070521313082116472571880773980016780044079804617int,
        0,
        1,
        18295019010357124288209549254924803114263934127087441982025644687406310223737int,
    );
    let e21: nat = 2 * e20 + 0;
    lemma_ladder(
        5,
        e20,
        18295019010357124288209549254924803114263934127087441982025644687406310223737int,
        0,
        1,
        4809985681524317931754994225766935429379970759864862201559058932612811966558int,
    );
    let e22: nat = 2 * e21 + 1;
    lemma_ladder(
        5,
        e21,
        4809985681524317931754994225766935429379970759864862201559058932612811966558int,
        1,
        5,
        10722679947205603560644882634460531018055450310674846622429009641286694866438int,
    );
    let e23: nat = 2 * e22 + 1;
    lemma_ladder(
        5,
        e22,
        10722679947205603560644882634460531018055450310674846622429009641286694866438int,
        1,
        5,
        9978142382581836083394488739391171229827799819935292177051107503295013014865int,
    );
}

/// The power of five after 161 bits of the exponent.
proof fn lemma_power_of_five_6()
    ensures
        pow(5, 2210147722953790686817404478738542738752298500675nat) % modulus() == 4240087459284698771200184234856471714831664842049934765271594327660777472651int,
{
    lemma_power_of_five_5();
    let e0: nat = 263470139855598293163466987459485857337987nat;
    let e1: nat = 2 * e0 + 0;
    lemma_ladder(
        5,
        e0,
        9978142382581836083394488739391171229827799819935292177051107503295013014865int,
        0,
        1,
        20828526651026562047938177539380870814145454824407443620948301134188005256829int,
    );
    let e2: nat = 2 * e1 + 0;
    lemma_ladder(
        5,
        e1,
        20828526651026562047938177539380870814145454824407443620948301134188005256829int,
        0,
        1,
        20108999319545194750311157435330613745464604512252470696897445492858182440183int,
    );
    let e3: nat = 2 * e2 + 1;
    lemma_ladder(
        5,
        e2,
        20108999319545194750311157435330613745464604512252470696897445492858182440183int,
        1,
        5,
        751405754761996497287697911178205239224845749818669177867786597867590859340int,
    );
    let e4: nat = 2 * e3 + 1;
    lemma_ladder(
        5,
        e3,
        751405754761996497287697911178205239224845749818669177867786597867590859340int,
        1,
        5,
        9608263533402201177314772758552292668627017986940321295441189851709618059978int,
    );
    let e5: nat = 2 * e4 + 1;
    lemma_ladder(
        5,
        e4,
        9608263533402201177314772758552292668627017986940321295441189851709618059978int,
        1,
        5,
        69152460602479285510945286980169575869481516039803947031344075076235775290int,
    );
    let e6: nat = 2 * e5 + 1;
    lemma_ladder(
        5,
        e5,
        69152460602479285510945286980169575869481516039803947031344075076235775290int,
        1,
        5,
        14796718409758880252633846279979280125736405701888325071352930063420351852184int,
    );
    let e7: nat = 2 * e6 + 1;
    lemma_ladder(
        5,
        e6,
        14796718409758880252633846279979280125736405701888325071352930063420351852184int,
        1,
        5,
        8720381750765444020246716808803326384476524582097196911534699655030093900312int,
    );
    let e8: nat = 2 * e7 + 0;
    lemma_ladder(
        5,
        e7,
        8720381750765444020246716808803326384476524582097196911534699655030093900312int,
        0,
        1,
        14892649614528839654169028971139063009499781759254866059744450462017781022802int,
    );
    let e9: nat = 2 * e8 + 1;
    lemma_ladder(
        5,
        e8,
        14892649614528839654169028971139063009499781759254866059744450462017781022802int,
        1,
        5,
        11909074913463159409056783113714780775937763879038467416314670573847971728217int,
    );
    let e10: nat = 2 * e9 + 0;
    lemma_ladder(
        5,
        e9,
        11909074913463159409056783113714780775937763879038467416314670573847971728217int,
        0,
        1,
        17437641355522165624799033933674092083328867063747558787056334495473956808601int,
    );
    let e11: nat = 2 * e10 + 0;
    lemma_ladder(
        5,
        e10,
        17437641355522165624799033933674092083328867063747558787056334495473956808601int,
        0,
        1,
        20710938132140626513949373190327770326956328697392362811499687227769032515796int,
    );
    let e12: nat = 2 * e11 + 0;
    lemma_ladder(
        5,
        e11,
        20710938132140626513949373190327770326956328697392362811499687227769032515796int,
        0,
        1,
        19048060928032714591417534755946607634654240098947699617078024922613392412787int,
    );
    let e13: nat = 2 * e12 + 0;
    lemma_ladder(
        5,
        e12,
        19048060928032714591417534755946607634654240098947699617078024922613392412787int,
        0,
        1,
        7642306773594291384427047649940685435317898839608575033543423100132218953365int,
    );
    let e14: nat = 2 * e13 + 1;
    lemma_ladder(
        5,
        e13,
        7642306773594291384427047649940685435317898839608575033543423100132218953365int,
        1,
        5,
        7178688468099908355054048654215660959431930535399731951912306690558469751624int,
    );
    let e15: nat = 2 * e14 + 0;
    lemma_ladder(
        5,
        e14,
        7178688468099908355054048654215660959431930535399731951912306690558469751624int,
        0,
        1,
        8688527548647302701724961424360795545182064770166054250650577990793349036634int,
    );
    let e16: nat = 2 * e15 + 0;
    lemma_ladder(
        5,
        e15,
        8688527548647302701724961424360795545182064770166054250650577990793349036634int,
        0,
        1,
        5057202144798839499450014372260571171482027748388788617262944271947016417803int,
    );
    let e17: nat = 2 * e16 + 1;
    lemma_ladder(
        5,
        e16,
        5057202144798839499450014372260571171482027748388788617262944271947016417803int,
        1,
        5,
        10103868833824505201078320885738992541205325650535450906847541492850380613787int,
    );
    let e18: nat = 2 * e17 + 0;
    lemma_ladder(
        5,
        e17,
        10103868833824505201078320885738992541205325650535450906847541492850380613787int,
        0,
        1,
        14873793230261418540691272697994461053239064256880395124807634259097824182474int,
    );
    let e19: nat = 2 * e18 + 0;
    lemma_ladder(
        5,
        e18,
        14873793230261418540691272697994461053239064256880395124807634259097824182474int,
        0,
        1,
        13163660610909834569616811784312169321574940972830683575230863032866261626959int,
    );
    let e20: nat = 2 * e19 + 0;
    lemma_ladder(
        5,
        e19,
        13163660610909834569616811784312169321574940972830683575230863032866261626959int,
        0,
        1,
        9579206542913659258240905957342899449291399317339313502305956160548126360531int,
    );
    let e21: nat = 2 * e20 + 0;
    lemma_ladder(
        5,
        e20,
        9579206542913659258240905957342899449291399317339313502305956160548126360531int,
        0,
        1,
        14751692744601950072521595178482090128843031141955405223593168958106555653778int,
    );
    let e22: nat = 2 * e21 + 1;
    lemma_ladder(
        5,
        e21,
        14751692744601950072521595178482090128843031141955405223593168958106555653778int,
        1,
        5,
        20723823640892854690464477210441322659909687419967043781906807996229505729294int,
    );
    let e23: nat = 2 * e22 + 1;
    lemma_ladder(
        5,
        e22,
        20723823640892854690464477210441322659909687419967043781906807996229505729294int,
        1,
        5,
        4240087459284698771200184234856471714831664842049934765271594327660777472651int,
    );
}

/// The power of five after 184 bits of the exponent.
proof fn lemma_power_of_five_7()
    ensures
        pow(5, 18540062869951952185761973749581969526639441221157053890nat) % modulus() == 5864937266725619989023665661559828394533744394728873142072681565045214212109int,
{
    lemma_power_of_five_6();
    let e0: nat = 2210147722953790686817404478738542738752298500675nat;
    let e1: nat = 2 * e0 + 1;
    lemma_ladder(
        5,
        e0,
        4240087459284698771200184234856471714831664842049934765271594327660777472651int,
        1,
        5,
        16306061378945417499547689990469560476726625588866812400965843903745002171320int,
    );
    let e2: nat = 2 * e1 + 1;
    lemma_ladder(
        5,
        e1,
        16306061378945417499547689990469560476726625588866812400965843903745002171320int,
        1,
        5,
        10739328255396697930763291630153722893658869551888685249485844722170943542999int,
    );
    let e3: nat = 2 * e2 + 0;
    lemma_ladder(
        5,
        e2,
        10739328255396697930763291630153722893658869551888685249485844722170943542999int,
        0,
        1,
        10135372386453685525385234797611185424134181361576661346940932913402926373445int,
    );
    let e4: nat = 2 * e3 + 0;
    lemma_ladder(
        5,
        e3,
        10135372386453685525385234797611185424134181361576661346940932913402926373445int,
        0,
        1,
        11307908243200590983912226516199098538677525625234053459875352388865085208733int,
    );
    let e5: nat = 2 * e4 + 1;
    lemma_ladder(
        5,
        e4,
        11307908243200590983912226516199098538677525625234053459875352388865085208733int,
        1,
        5,
        1943201329826588388270439141265312603161414707756492044047941290472948293150int,
    );
    let e6: nat = 2 * e5 + 1;
    lemma_ladder(
        5,
        e5,
        1943201329826588388270439141265312603161414707756492044047941290472948293150int,
        1,
        5,
        746927009401088416642842109553999912809197319218937134651646672513149924647int,
    );
    let e7: nat = 2 * e6 + 0;
    lemma_ladder(
        5,
        e6,
        746927009401088416642842109553999912809197319218937134651646672513149924647int,
        0,
        1,
        21854991480932784668838198497720357849263966181152651716496937717667411041607int,
    );
    let e8: nat = 2 * e7 + 1;
    lemma_ladder(
        5,
        e7,
        21854991480932784668838198497720357849263966181152651716496937717667411041607int,
        1,
        5,
        13305767183019947994369697708435408097155047623286467549698266195193572556896int,
    );
    let e9: nat = 2 * e8 + 1;
    lemma_ladder(
        5,
        e8,
        13305767183019947994369697708435408097155047623286467549698266195193572556896int,
        1,
        5,
        20161422863521357340736523006175480061239753447882726980318339004137231584219int,
    );
    let e10: nat = 2 * e9 + 1;
    lemma_ladder(
        5,
        e9,
        20161422863521357340736523006175480061239753447882726980318339004137231584219int,
        1,
        5,
        2540854949733195650109460998061119113922879687924196158493057989532908628628int,
    );
    let e11: nat = 2 * e10 + 0;
    lemma_ladder(
        5,
        e10,
        2540854949733195650109460998061119113922879687924196158493057989532908628628int,
        0,
        1,
        3587739895188907408513457647094080115744026875099077259371554283294773738866int,
    );
    let e12: nat = 2 * e11 + 0;
    lemma_ladder(
        5,
        e11,
        3587739895188907408513457647094080115744026875099077259371554283294773738866int,
        0,
        1,
        4031598524059352681220240458485118380885926112118639552555483931584623568936int,
    );
    let e13: nat = 2 * e12 + 1;
    lemma_ladder(
        5,
        e12,
        4031598524059352681220240458485118380885926112118639552555483931584623568936int,
        1,
        5,
        3456158722108757805166158752147389326097267257793635151814555662475695313921int,
    );
    let e14: nat = 2 * e13 + 0;
    lemma_ladder(
        5,
        e13,
        3456158722108757805166158752147389326097267257793635151814555662475695313921int,
        0,
        1,
        18015319123530641103891810493588649086169408445169553185127977945908434470769int,
    );
    let e15: nat = 2 * e14 + 1;
    lemma_ladder(
        5,
        e14,
        18015319123530641103891810493588649086169408445169553185127977945908434470769int,
        1,
        5,
        5387870402371973187686067953504301837600629593365648244626023663112038735617int,
    );
    let e16: nat = 2 * e15 + 1;
    lemma_ladder(
        5,
        e15,
        5387870402371973187686067953504301837600629593365648244626023663112038735617int,
        1,
        5,
        5193161134101987841005332192047631706719996804743058780668119996728484547841int,
    );
    let e17: nat = 2 * e16 + 1;
    lemma_ladder(
        5,
        e16,
        5193161134101987841005332192047631706719996804743058780668119996728484547841int,
        1,
        5,
        18205901062977018423198743347807140989506408936725232654902166322973911547001int,
    );
    let e18: nat = 2 * e17 + 0;
    lemma_ladder(
        5,
        e17,
        18205901062977018423198743347807140989506408936725232654902166322973911547001int,
        0,
        1,
        11439635964056741486061984176579895849146674331883090745521496902067965645330int,
    );
    let e19: nat = 2 * e18 + 0;
    lemma_ladder(
        5,
        e18,
        11439635964056741486061984176579895849146674331883090745521496902067965645330int,
        0,
        1,
        20818369237389878780554593118232319995567800537260559444773294069829048955457int,
    );
    let e20: nat = 2 * e19 + 0;
    lemma_ladder(
        5,
        e19,
        20818369237389878780554593118232319995567800537260559444773294069829048955457int,
        0,
        1,
        12884993852127825220611561092387825975427124727324898546348906356907352426900int,
    );
    let e21: nat = 2 * e20 + 0;
    lemma_ladder(
        5,
        e20,
        12884993852127825220611561092387825975427124727324898546348906356907352426900int,
        0,
        1,
        11969251670545564906427322491981671093730621703182074123151076258052128948308int,
    );
    let e22: nat = 2 * e21 + 1;
    lemma_ladder(
        5,
        e21,
        11969251670545564906427322491981671093730621703182074123151076258052128948308int,
        1,
        5,
        11580041054101843887131302525128405841948322112810854627012853863431444618093int,
    );
    let e23: nat = 2 * e22 + 0;
    lemma_ladder(
        5,
        e22,
        11580041054101843887131302525128405841948322112810854627012853863431444618093int,
        0,
        1,
        5864937266725619989023665661559828394533744394728873142072681565045214212109int,
    );
}

/// The power of five after 207 bits of the exponent.
proof fn lemma_power_of_five_8()
    ensures
        pow(5, 155525319711381905721100379091533306226923829743327831520348099nat) % modulus() == 5597637047028519446577838904921168328655612646371173785377809406788222196150int,
{
    lemma_power_of_five_7();
    let e0: nat = 18540062869951952185761973749581969526639441221157053890nat;
    let e1: nat = 2 * e0 + 0;
    lemma_ladder(
        5,
        e0,
        5864937266725619989023665661559828394533744394728873142072681565045214212109int,
        0,
        1,
        16278962444712543222161982882950573234696921839554216072953517402982671314135int,
    );
    let e2: nat = 2 * e1 + 1;
    lemma_ladder(
        5,
        e1,
        16278962444712543222161982882950573234696921839554216072953517402982671314135int,
        1,
        5,
        9061542223363942494619405717243633225630770467232373133371354230755635562274int,
    );
    let e3: nat = 2 * e2 + 0;
    lemma_ladder(
        5,
        e2,
        9061542223363942494619405717243633225630770467232373133371354230755635562274int,
        0,
        1,
        17130477785968292864459106744043095828782788675940519186368197721684477088776int,
    );
    let e4: nat = 2 * e3 + 0;
    lemma_ladder(
        5,
        e3,
        17130477785968292864459106744043095828782788675940519186368197721684477088776int,
        0,
        1,
        9356756135458498593316479314345562334729267861527060627282397833742080591342int,
    );
    let e5: nat = 2 * e4 + 0;
    lemma_ladder(
        5,
        e4,
        9356756135458498593316479314345562334729267861527060627282397833742080591342int,
        0,
        1,
        17898123499280837878048763555213381316685887531033950867536307914915923762881int,
    );
    let e6: nat = 2 * e5 + 1;
    lemma_ladder(
        5,
        e5,
        17898123499280837878048763555213381316685887531033950867536307914915923762881int,
        1,
        5,
        14938748169776878130809849169493198826524946368436660516023968911503332636423int,
    );
    let e7: nat = 2 * e6 + 0;
    lemma_ladder(
        5,
        e6,
        14938748169776878130809849169493198826524946368436660516023968911503332636423int,
        0,
        1,
        3214235673171737518731386276069791272554273938306521329971948031584956700171int,
    );
    let e8: nat = 2 * e7 + 1;
    lemma_ladder(
        5,
        e7,
        3214235673171737518731386276069791272554273938306521329971948031584956700171int,
        1,
        5,
        13726535446586193155752528920508703777934001076127294731411464506530803234274int,
    );
    let e9: nat = 2 * e8 + 0;
    lemma_ladder(
        5,
        e8,
        13726535446586193155752528920508703777934001076127294731411464506530803234274int,
        0,
        1,
        4593135266042967422011463256484233142601212075001244522796606496438689911128int,
    );
    let e10: nat = 2 * e9 + 0;
    lemma_ladder(
        5,
        e9,
        4593135266042967422011463256484233142601212075001244522796606496438689911128int,
        0,
        1,
        10490369222805117846589041214555248567797986013574314709671017272084826234648int,
    );
    let e11: nat = 2 * e10 + 0;
    lemma_ladder(
        5,
        e10,
        10490369222805117846589041214555248567797986013574314709671017272084826234648int,
        0,
        1,
        1937108614351948022411786112424793193041333199712643445159471300644671082871int,
    );
    let e12: nat = 2 * e11 + 0;
    lemma_ladder(
        5,
        e11,
        1937108614351948022411786112424793193041333199712643445159471300644671082871int,
        0,
        1,
        3641374181483861630657522442663120740580009294059727653485775695769451685693int,
    );
    let e13: nat = 2 * e12 + 1;
    lemma_ladder(
        5,
        e12,
        3641374181483861630657522442663120740580009294059727653485775695769451685693int,
        1,
        5,
        2369857495604672075885586745501376665292538597775222601363517338362885229667int,
    );
    let e14: nat = 2 * e13 + 1;
    lemma_ladder(
        5,
        e13,
        2369857495604672075885586745501376665292538597775222601363517338362885229667int,
        1,
        5,
        13859074915942825223780066375404238746394152374296986706583155839500349989276int,
    );
    let e15: nat = 2 * e14 + 1;
    lemma_ladder(
        5,
        e14,
        13859074915942825223780066375404238746394152374296986706583155839500349989276int,
        1,
        5,
        5056531866610302948622938249590658019498629227058225488714829386922487594071int,
    );
    let e16: nat = 2 * e15 + 1;
    lemma_ladder(
        5,
        e15,
        5056531866610302948622938249590658019498629227058225488714829386922487594071int,
        1,
        5,
        392209866538760687157270271132533899497882103611440241915505725540311589000int,
    );
    let e17: nat = 2 * e16 + 1;
    lemma_ladder(
        5,
        e16,
        392209866538760687157270271132533899497882103611440241915505725540311589000int,
        1,
        5,
        12055348549749370040492776391518332730517270762405466490330518457489883398286int,
    );
    let e18: nat = 2 * e17 + 0;
    lemma_ladder(
        5,
        e17,
        12055348549749370040492776391518332730517270762405466490330518457489883398286int,
        0,
        1,
        21252797058633888110669512457827758046735110009970338276828411647506534046872int,
    );
    let e19: nat = 2 * e18 + 0;
    lemma_ladder(
        5,
        e18,
        21252797058633888110669512457827758046735110009970338276828411647506534046872int,
        0,
        1,
        13266312725827070433353762433742431132301102533164414298596390998203865040072int,
    );
    let e20: nat = 2 * e19 + 0;
    lemma_ladder(
        5,
        e19,
        13266312725827070433353762433742431132301102533164414298596390998203865040072int,
        0,
        1,
        7691645423912914291791218813308444524473561439231059913048111466025069208480int,
    );
    let e21: nat = 2 * e20 + 0;
    lemma_ladder(
        5,
        e20,
        7691645423912914291791218813308444524473561439231059913048111466025069208480int,
        0,
        1,
        12118804860518670145098489159991402417888461380160045337181206144932510518417int,
    );
    let e22: nat = 2 * e21 + 1;
    lemma_ladder(
        5,
        e21,
        12118804860518670145098489159991402417888461380160045337181206144932510518417int,
        1,
        5,
        18075617560161400017265719064587082343539520290825042907816305187579429967267int,
    );
    let e23: nat = 2 * e22 + 1;
    lemma_ladder(
        5,
        e22,
        18075617560161400017265719064587082343539520290825042907816305187579429967267int,
        1,
        5,
        5597637047028519446577838904921168328655612646371173785377809406788222196150int,
    );
}

/// The power of five after 230 bits of the exponent.
proof fn lemma_power_of_five_9()
    ensures
        pow(5, 1304640941133455945387268408850269024881623053575517794114244233761776nat) % modulus() == 5709868443893258075976348696661355716898495876243883251619397131511003808859int,
{
    lemma_power_of_five_8();
    let e0: nat = 155525319711381905721100379091533306226923829743327831520348099nat;
    let e1: nat = 2 * e0 + 1;
    lemma_ladder(
        5,
        e0,
        5597637047028519446577838904921168328655612646371173785377809406788222196150int,
        1,
        5,
        17131676353817676522330337280257300717404349643080789421898581125084439507497int,
    );
    let e2: nat = 2 * e1 + 1;
    lemma_ladder(
        5,
        e1,
        17131676353817676522330337280257300717404349643080789421898581125084439507497int,
        1,
        5,
        3018937801257910216515047324755150230061739800647458677846584795504153630758int,
    );
    let e3: nat = 2 * e2 + 1;
    lemma_ladder(
        5,
        e2,
        3018937801257910216515047324755150230061739800647458677846584795504153630758int,
        1,
        5,
        17455065840341016599016362060421014240668472366741397563567140602202677457893int,
    );
    let e4: nat = 2 * e3 + 0;
    lemma_ladder(
        5,
        e3,
        17455065840341016599016362060421014240668472366741397563567140602202677457893int,
        0,
        1,
        7632859069599439598358838545241447435854959763072411601435810877805735205390int,
    );
    let e5: nat = 2 * e4 + 1;
    lemma_ladder(
        5,
        e4,
        7632859069599439598358838545241447435854959763072411601435810877805735205390int,
        1,
        5,
        15584217585748572842816011174557775326058560635213565890741996735542957676686int,
    );
    let e6: nat = 2 * e5 + 0;
    lemma_ladder(
        5,
        e5,
        15584217585748572842816011174557775326058560635213565890741996735542957676686int,
        0,
        1,
        12432341267527756745256562101780752298590697240126755332407548816141571972251int,
    );
    let e7: nat = 2 * e6 + 1;
    lemma_ladder(
        5,
        e6,
        12432341267527756745256562101780752298590697240126755332407548816141571972251int,
        1,
        5,
        15136459971889329318676257437087086493381345671803843509103584356611064634950int,
    );
    let e8: nat = 2 * e7 + 1;
    lemma_ladder(
        5,
        e7,
        15136459971889329318676257437087086493381345671803843509103584356611064634950int,
        1,
        5,
        7494828804797737275776582221398543562381784861213666539038261279340889662409int,
    );
    let e9: nat = 2 * e8 + 0;
    lemma_ladder(
        5,
        e8,
        7494828804797737275776582221398543562381784861213666539038261279340889662409int,
        0,
        1,
        17260355802334470954789239999457897432519853367745850607098986290821664953648int,
    );
    let e10: nat = 2 * e9 + 0;
    lemma_ladder(
        5,
        e9,
        17260355802334470954789239999457897432519853367745850607098986290821664953648int,
        0,
        1,
        789170716349317388151285254225649761838141032716085490053900106686664126803int,
    );
    let e11: nat = 2 * e10 + 1;
    lemma_ladder(
        5,
        e10,
        789170716349317388151285254225649761838141032716085490053900106686664126803int,
        1,
        5,
        10610473177882773990001559912042244532022120605293286388691001914180527198299int,
    );
    let e12: nat = 2 * e11 + 0;
    lemma_ladder(
        5,
        e11,
        10610473177882773990001559912042244532022120605293286388691001914180527198299int,
        0,
        1,
        21344149160493923985348395797267631806317928892777713724796530913426795844678int,
    );
    let e13: nat = 2 * e12 + 0;
    lemma_ladder(
        5,
        e12,
        21344149160493923985348395797267631806317928892777713724796530913426795844678int,
        0,
        1,
        18169491907886456435708683525899746018022238290053812303134954735184350031826int,
    );
    let e14: nat = 2 * e13 + 1;
    lemma_ladder(
        5,
        e13,
        18169491907886456435708683525899746018022238290053812303134954735184350031826int,
        1,
        5,
        610310806950017018757722104526767371315807778323775703978940537639595320464int,
    );
    let e15: nat = 2 * e14 + 1;
    lemma_ladder(
        5,
        e14,
        610310806950017018757722104526767371315807778323775703978940537639595320464int,
        1,
        5,
        5051757990388364294045374072784308903399859774183898982473141990546888223579int,
    );
    let e16: nat = 2 * e15 + 1;
    lemma_ladder(
        5,
        e15,
        5051757990388364294045374072784308903399859774183898982473141990546888223579int,
        1,
        5,
        21059671027353173651866436678994192502386530743536438729096551768134822282270int,
    );
    let e17: nat = 2 * e16 + 1;
    lemma_ladder(
        5,
        e16,
        21059671027353173651866436678994192502386530743536438729096551768134822282270int,
        1,
        5,
        7954172761882915718216723754292317241705821155170880342691183006367781295795int,
    );
    let e18: nat = 2 * e17 + 1;
    lemma_ladder(
        5,
        e17,
        7954172761882915718216723754292317241705821155170880342691183006367781295795int,
        1,
        5,
        8555721953629461299286736829542406442931665950900867472601658309925438163304int,
    );
    let e19: nat = 2 * e18 + 1;
    lemma_ladder(
        5,
        e18,
        8555721953629461299286736829542406442931665950900867472601658309925438163304int,
        1,
        5,
        19103219067921713944291392827692070036145651957329286315305642004821462161904int,
    );
    let e20: nat = 2 * e19 + 0;
    lemma_ladder(
        5,
        e19,
        19103219067921713944291392827692070036145651957329286315305642004821462161904int,
        0,
        1,
        2082940218526944230311718225077035922214683169814847712455127909555749686340int,
    );
    let e21: nat = 2 * e20 + 0;
    lemma_ladder(
        5,
        e20,
        2082940218526944230311718225077035922214683169814847712455127909555749686340int,
        0,
        1,
        7419588552507395652481651088034484897579724952953562618697845598160172257810int,
    );
    let e22: nat = 2 * e21 + 0;
    lemma_ladder(
        5,
        e21,
        7419588552507395652481651088034484897579724952953562618697845598160172257810int,
        0,
        1,
        19200870435978225707111062059747084165650991997241425080699860725083300967194int,
    );
    let e23: nat = 2 * e22 + 0;
    lemma_ladder(
        5,
        e22,
        19200870435978225707111062059747084165650991997241425080699860725083300967194int,
        0,
        1,
        5709868443893258075976348696661355716898495876243883251619397131511003808859int,
    );
}

/// The power of five after 253 bits of the exponent.
proof fn lemma_power_of_five_10()
    ensures
        pow(5, 10944121435919637611123202872628637544274182200208017171849102093287904247808nat) % modulus() == 21888242871839275222246405745257275088548364400416034343698204186575808495616int,
{
    lemma_power_of_five_9();
    let e0: nat = 1304640941133455945387268408850269024881623053575517794114244233761776nat;
    let e1: nat = 2 * e0 + 0;
    lemma_ladder(
        5,
        e0,
        5709868443893258075976348696661355716898495876243883251619397131511003808859int,
        0,
        1,
        934650972362265999028062457054462628285482693704334323590406443310927365533int,
    );
    let e2: nat = 2 * e1 + 0;
    lemma_ladder(
        5,
        e1,
        934650972362265999028062457054462628285482693704334323590406443310927365533int,
        0,
        1,
        12143866164239048021030917283424216263377309185099704096317235600302831912062int,
    );
    let e3: nat = 2 * e2 + 0;
    lemma_ladder(
        5,
        e2,
        12143866164239048021030917283424216263377309185099704096317235600302831912062int,
        0,
        1,
        13536764371732269273912573961853310557438878140379554347802702086337840854307int,
    );
    let e4: nat = 2 * e3 + 0;
    lemma_ladder(
        5,
        e3,
        13536764371732269273912573961853310557438878140379554347802702086337840854307int,
        0,
        1,
        17220337697351015657950521176323262483320249231368149235373741788599650842711int,
    );
    let e5: nat = 2 * e4 + 0;
    lemma_ladder(
        5,
        e4,
        17220337697351015657950521176323262483320249231368149235373741788599650842711int,
        0,
        1,
        15549849457946371566896172786938980432421851627449396898353380550861104573629int,
    );
    let e6: nat = 2 * e5 + 0;
    lemma_ladder(
        5,
        e5,
        15549849457946371566896172786938980432421851627449396898353380550861104573629int,
        0,
        1,
        11699596668367776675346610687704220591435078791727316319397053191800576917728int,
    );
    let e7: nat = 2 * e6 + 0;
    lemma_ladder(
        5,
        e6,
        11699596668367776675346610687704220591435078791727316319397053191800576917728int,
        0,
        1,
        12650941915662020058015862023665998998969191525479888727406889100124684769509int,
    );
    let e8: nat = 2 * e7 + 0;
    lemma_ladder(
        5,
        e7,
        12650941915662020058015862023665998998969191525479888727406889100124684769509int,
        0,
        1,
        421743594562400382753388642386256516545992082196004333756405989743524594615int,
    );
    let e9: nat = 2 * e8 + 0;
    lemma_ladder(
        5,
        e8,
        421743594562400382753388642386256516545992082196004333756405989743524594615int,
        0,
        1,
        20402931748843538985151001264530049874871572933694634836567070693966133783803int,
    );
    let e10: nat = 2 * e9 + 0;
    lemma_ladder(
        5,
        e9,
        20402931748843538985151001264530049874871572933694634836567070693966133783803int,
        0,
        1,
        20619701001583904760601357484951574588621083236087856586626117568842480512645int,
    );
    let e11: nat = 2 * e10 + 0;
    lemma_ladder(
        5,
        e10,
        20619701001583904760601357484951574588621083236087856586626117568842480512645int,
        0,
        1,
        197302210312744933010843010704445784068657690384188106020011018676818793232int,
    );
    let e12: nat = 2 * e11 + 0;
    lemma_ladder(
        5,
        e11,
        197302210312744933010843010704445784068657690384188106020011018676818793232int,
        0,
        1,
        4158865282786404163413953114870269622875596290766033564087307867933865333818int,
    );
    let e13: nat = 2 * e12 + 0;
    lemma_ladder(
        5,
        e12,
        4158865282786404163413953114870269622875596290766033564087307867933865333818int,
        0,
        1,
        1120550406532664055539694724667294622065367841900378087843176726913374367458int,
    );
    let e14: nat = 2 * e13 + 0;
    lemma_ladder(
        5,
        e13,
        1120550406532664055539694724667294622065367841900378087843176726913374367458int,
        0,
        1,
        3161067157621608152362653341354432744960400845131437947728257924963983317266int,
    );
    let e15: nat = 2 * e14 + 0;
    lemma_ladder(
        5,
        e14,
        3161067157621608152362653341354432744960400845131437947728257924963983317266int,
        0,
        1,
        6837567842312086091520287814181175430087169027974246751610506942214842701774int,
    );
    let e16: nat = 2 * e15 + 0;
    lemma_ladder(
        5,
        e15,
        6837567842312086091520287814181175430087169027974246751610506942214842701774int,
        0,
        1,
        3478517300119284901893091970156912948790432420133812234316178878452092729974int,
    );
    let e17: nat = 2 * e16 + 0;
    lemma_ladder(
        5,
        e16,
        3478517300119284901893091970156912948790432420133812234316178878452092729974int,
        0,
        1,
        10359452186428527605436343203440067497552205259388878191021578220384701716497int,
    );
    let e18: nat = 2 * e17 + 0;
    lemma_ladder(
        5,
        e17,
        10359452186428527605436343203440067497552205259388878191021578220384701716497int,
        0,
        1,
        9088801421649573101014283686030284801466796108869023335878462724291607593530int,
    );
    let e19: nat = 2 * e18 + 0;
    lemma_ladder(
        5,
        e18,
        9088801421649573101014283686030284801466796108869023335878462724291607593530int,
        0,
        1,
        4419234939496763621076330863786513495701855246241724391626358375488475697872int,
    );
    let e20: nat = 2 * e19 + 0;
    lemma_ladder(
        5,
        e19,
        4419234939496763621076330863786513495701855246241724391626358375488475697872int,
        0,
        1,
        14940766826517323942636479241147756311199852622225275649687664389641784935947int,
    );
    let e21: nat = 2 * e20 + 0;
    lemma_ladder(
        5,
        e20,
        14940766826517323942636479241147756311199852622225275649687664389641784935947int,
        0,
        1,
        19540430494807482326159819597004422086093766032135589407132600596362845576832int,
    );
    let e22: nat = 2 * e21 + 0;
    lemma_ladder(
        5,
        e21,
        19540430494807482326159819597004422086093766032135589407132600596362845576832int,
        0,
        1,
        21888242871839275217838484774961031246007050428528088939761107053157389710902int,
    );
    let e23: nat = 2 * e22 + 0;
    lemma_ladder(
        5,
        e22,
        21888242871839275217838484774961031246007050428528088939761107053157389710902int,
        0,
        1,
        21888242871839275222246405745257275088548364400416034343698204186575808495616int,
    );
}

/// Five raised to half the order of the multiplicative group.
pub proof fn lemma_euler_power_of_five()
    ensures
        euler_power(5) == modulus() - 1,
{
    lemma_power_of_five_10();
}

/// Five is a quadratic non-residue, and one, two, three and four are
/// not: raised to half the order of the multiplicative group they give
/// one.
pub proof fn lemma_least_nonresidue()
    ensures
        euler_power(1) == 1,
        euler_power(2) == 1,
        euler_power(3) == 1,
        euler_power(4) == 1,
        euler_power(5) == modulus() - 1,
{
    let half: nat = ((modulus() - 1) / 2) as nat;
    lemma_euler_power_of_two();
    lemma_euler_power_of_three();
    lemma_euler_power_of_five();
    lemma1_pow(half);
    lemma_small_mod(1, modulus() as nat);
    lemma_pow_distributes(2, 2, half);
    lemma_mul_mod_noop(pow(2, half), pow(2, half), modulus());
}

} // verus!

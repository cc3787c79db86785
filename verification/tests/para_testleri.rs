use para::{Miktar, Para, ParaBirimi, ParaError, ParaErrorKind};

fn miktar(negatif: bool, tam: &str, ondalik: &str) -> Miktar {
    Miktar { negatif, tam: tam.chars().collect(), ondalik: ondalik.chars().collect() }
}

#[test]
fn positive_tamsayi() {
    let result = "42 lira".parse::<Para>();
    assert_eq!(Ok(Para::from_parts(miktar(false, "42", ""), ParaBirimi::Lira)), result);
}

#[test]
fn negative_tamsayi() {
    let result = "-42 lira".parse::<Para>();
    assert_eq!(Ok(Para::from_parts(miktar(true, "42", ""), ParaBirimi::Lira)), result);
}

#[test]
fn positive_ondalik() {
    let result = "42.1 lira".parse::<Para>();
    assert_eq!(Ok(Para::from_parts(miktar(false, "42", "1"), ParaBirimi::Lira)), result);
}

#[test]
fn negative_ondalik() {
    let result = "-42.1 lira".parse::<Para>();
    assert_eq!(Ok(Para::from_parts(miktar(true, "42", "1"), ParaBirimi::Lira)), result);
}

#[test]
#[should_panic(expected = "ParaError { kind: Formatting }")]
fn tek_oge() {
    "42".parse::<Para>().unwrap();
}

#[test]
#[should_panic(expected = "ParaError { kind: Formatting }")]
fn cok_oge() {
    "42 lira dolar".parse::<Para>().unwrap();
}

#[test]
#[should_panic(expected = "ParaError { kind: Miktar }")]
fn hatali_miktar() {
    "42a lira".parse::<Para>().unwrap();
}

#[test]
fn senaryo_lira_goster() {
    let p = Para::ayristir("42 lira").unwrap();
    assert_eq!(p, Para::from_parts(miktar(false, "42", ""), ParaBirimi::Lira));
    assert_eq!(p.goster(), String::from("Para => 42 lira"));
}

#[test]
fn senaryo_usd_dolar_olur() {
    let p = Para::ayristir("42 usd").unwrap();
    assert_eq!(p, Para::from_parts(miktar(false, "42", ""), ParaBirimi::Dolar));
    assert_eq!(p.goster(), String::from("Para => 42 $"));
}

#[test]
fn senaryo_pound_tanimsiz() {
    let e = Para::ayristir("42 pound").unwrap_err();
    assert_eq!(e, ParaError { kind: ParaErrorKind::ParaBirimi });
}

#[test]
fn bos_girdi_bicim_hatasi() {
    let e = Para::ayristir("").unwrap_err();
    assert_eq!(e.kind, ParaErrorKind::Formatting);
}

#[test]
fn yalniz_bosluk_bicim_hatasi() {
    let e = Para::ayristir("   \t  ").unwrap_err();
    assert_eq!(e.kind, ParaErrorKind::Formatting);
}

#[test]
fn uc_oge_bicim_hatasi() {
    let e = Para::ayristir("1 2 3").unwrap_err();
    assert_eq!(e.kind, ParaErrorKind::Formatting);
}

#[test]
fn fazla_bosluk_kabul() {
    let p = Para::ayristir("  42   lira  ").unwrap();
    assert_eq!(p, Para::from_parts(miktar(false, "42", ""), ParaBirimi::Lira));
}

#[test]
fn sekme_ile_ayirma_kabul() {
    let p = Para::ayristir("42\tlira").unwrap();
    assert_eq!(p.para_birimi, ParaBirimi::Lira);
}

#[test]
fn arti_isareti_kabul() {
    let p = Para::ayristir("+42 lira").unwrap();
    assert_eq!(p, Para::from_parts(miktar(false, "42", ""), ParaBirimi::Lira));
}

#[test]
fn noktadan_sonra_rakamsiz_hata() {
    let e = Para::ayristir("42. lira").unwrap_err();
    assert_eq!(e.kind, ParaErrorKind::Miktar);
}

#[test]
fn noktadan_once_rakamsiz_hata() {
    let e = Para::ayristir(".5 lira").unwrap_err();
    assert_eq!(e.kind, ParaErrorKind::Miktar);
}

#[test]
fn iki_nokta_hata() {
    let e = Para::ayristir("4.2.1 lira").unwrap_err();
    assert_eq!(e.kind, ParaErrorKind::Miktar);
}

#[test]
fn yalniz_isaret_hata() {
    let e = Para::ayristir("- lira").unwrap_err();
    assert_eq!(e.kind, ParaErrorKind::Miktar);
}

#[test]
fn miktar_oncelikli_hata() {
    // Both tokens are invalid: the amount error wins.
    let e = Para::ayristir("abc xyz").unwrap_err();
    assert_eq!(e.kind, ParaErrorKind::Miktar);
}

#[test]
fn buyuk_harfli_lira_kabul() {
    let p = Para::ayristir("42 LIRA").unwrap();
    assert_eq!(p.para_birimi, ParaBirimi::Lira);
}

#[test]
fn karisik_harfli_usd_kabul() {
    let p = Para::ayristir("42 Usd").unwrap();
    assert_eq!(p.para_birimi, ParaBirimi::Dolar);
}

#[test]
fn tum_takma_adlar() {
    assert_eq!(ParaBirimi::ayristir("lira"), Ok(ParaBirimi::Lira));
    assert_eq!(ParaBirimi::ayristir("tl"), Ok(ParaBirimi::Lira));
    assert_eq!(ParaBirimi::ayristir("TL"), Ok(ParaBirimi::Lira));
    assert_eq!(ParaBirimi::ayristir("dolar"), Ok(ParaBirimi::Dolar));
    assert_eq!(ParaBirimi::ayristir("$"), Ok(ParaBirimi::Dolar));
    assert_eq!(ParaBirimi::ayristir("usd"), Ok(ParaBirimi::Dolar));
    assert_eq!(ParaBirimi::ayristir("euro"), Ok(ParaBirimi::Euro));
    assert_eq!(ParaBirimi::ayristir("\u{20ac}"), Ok(ParaBirimi::Euro));
    assert_eq!(ParaBirimi::ayristir("eur"), Ok(ParaBirimi::Euro));
    assert_eq!(ParaBirimi::ayristir("EuRo"), Ok(ParaBirimi::Euro));
    assert_eq!(
        ParaBirimi::ayristir("pound"),
        Err(ParaError { kind: ParaErrorKind::ParaBirimi })
    );
}

#[test]
fn kismi_eslesme_kabul_edilmez() {
    assert!(ParaBirimi::ayristir("liras").is_err());
    assert!(ParaBirimi::ayristir("lir").is_err());
    assert!(ParaBirimi::ayristir("").is_err());
}

#[test]
fn birimi_goster_bicimleri() {
    assert_eq!(ParaBirimi::Lira.goster(), String::from("lira"));
    assert_eq!(ParaBirimi::Dolar.goster(), String::from("$"));
    assert_eq!(ParaBirimi::Euro.goster(), String::from("\u{20ac}"));
}

#[test]
fn euro_goster() {
    let p = Para::ayristir("1.5 eur").unwrap();
    assert_eq!(p.goster(), String::from("Para => 1.5 \u{20ac}"));
}

#[test]
fn goster_yineleme() {
    // Rendering the same value twice gives identical text.
    let p = Para::ayristir("-42.1 tl").unwrap();
    assert_eq!(p.goster(), p.goster());
}

#[test]
fn tur_donusu_garanti_degil() {
    // Aliases canonicalize: the display of a parsed "usd" is "$", not "usd".
    let girdi = "42 usd";
    let p = Para::ayristir(girdi).unwrap();
    assert_ne!(p.goster(), String::from(girdi));
    assert_eq!(p.goster(), String::from("Para => 42 $"));
}

#[test]
fn varsayilan_deger() {
    let p = Para::new();
    assert_eq!(p, Para::default());
    assert_eq!(p, Para::from_parts(miktar(false, "0", ""), ParaBirimi::Lira));
    assert_eq!(p.goster(), String::from("Para => 0 lira"));
    assert_eq!(ParaBirimi::default(), ParaBirimi::Lira);
}

#[test]
fn hata_mesajlari() {
    let bicim = ParaError { kind: ParaErrorKind::Formatting };
    let miktar_hatasi = ParaError { kind: ParaErrorKind::Miktar };
    let birim_hatasi = ParaError { kind: ParaErrorKind::ParaBirimi };
    assert_eq!(bicim.mesaj(), String::from("Provide amount and currency, e.g.: 42 lira"));
    assert_eq!(miktar_hatasi.mesaj(), String::from("Amount parsing error"));
    assert_eq!(birim_hatasi.mesaj(), String::from("Currency parsing error"));
}

#[test]
fn miktar_dogrudan_ayristirma() {
    assert_eq!(Miktar::ayristir("42"), Ok(miktar(false, "42", "")));
    assert_eq!(Miktar::ayristir("-42.1"), Ok(miktar(true, "42", "1")));
    assert_eq!(Miktar::ayristir("007.250"), Ok(miktar(false, "007", "250")));
    assert_eq!(
        Miktar::ayristir("42a"),
        Err(ParaError { kind: ParaErrorKind::Miktar })
    );
}

#[test]
fn gecerlilik_denetimi() {
    let p = Para::ayristir("42.5 euro").unwrap();
    assert!(p.gecerli());
    let bozuk = Para::from_parts(miktar(false, "", ""), ParaBirimi::Lira);
    assert!(!bozuk.gecerli());
}

#[test]
fn birimden_from_str() {
    let b: ParaBirimi = "Dolar".parse().unwrap();
    assert_eq!(b, ParaBirimi::Dolar);
}

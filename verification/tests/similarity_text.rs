use whatsapp_rust_server::similarity::{
    build_xml, error_xml, fill_from_reply, fill_plan, fill_prompt, final_verdict,
    fix_spanish_decimal, missing_count, rewrite_decision, rewrite_from_reply, rewrite_prompt,
    xml_escape, FillPlan, RewriteDecision,
};

fn reference_build_xml(
    umbral: f64,
    sim_12: f64,
    sim_13: f64,
    sim_23: f64,
    cumple_all: bool,
    recomendaciones: Option<&(String, String, String)>,
) -> String {
    let cumple_validacion = if cumple_all { "true" } else { "false" };
    let (r1, r2, r3) = recomendaciones
        .map(|(a, b, c)| (a.as_str(), b.as_str(), c.as_str()))
        .unwrap_or(("", "", ""));
    format!(
        "<?xml version=\"1.0\" encoding=\"UTF-8\"?>\n\
<ValidacionSimilitud xmlns=\"Nucleo\">\n\
  <Estado>SUCCESS</Estado>\n\
  <Mensaje>Validacion completada</Mensaje>\n\
  <Resultado>\n\
    <CumpleValidacion>{cumple_validacion}</CumpleValidacion>\n\
    <UmbralConfigurado>{umbral:.0}</UmbralConfigurado>\n\
    <Comparaciones/>\n\
    <Recomendaciones>\n\
      <Mensaje1Reescrito>{}</Mensaje1Reescrito>\n\
      <Mensaje2Reescrito>{}</Mensaje2Reescrito>\n\
      <Mensaje3Reescrito>{}</Mensaje3Reescrito>\n\
      <SimilitudesNuevas>\n\
        <Similitud1vs2>{sim_12:.1}</Similitud1vs2>\n\
        <Similitud1vs3>{sim_13:.1}</Similitud1vs3>\n\
        <Similitud2vs3>{sim_23:.1}</Similitud2vs3>\n\
      </SimilitudesNuevas>\n\
    </Recomendaciones>\n\
  </Resultado>\n\
</ValidacionSimilitud>",
        xml_escape(r1),
        xml_escape(r2),
        xml_escape(r3),
    )
}

#[test]
fn spanish_decimal_comma_becomes_point() {
    let raw = "{\"mensaje1\": \"a\", \"umbralSimilitud\": 30,00}";
    assert_eq!(fix_spanish_decimal(raw), "{\"mensaje1\": \"a\", \"umbralSimilitud\": 30.00}");
}

#[test]
fn spanish_decimal_without_space_and_many_commas() {
    assert_eq!(fix_spanish_decimal("{\"umbralSimilitud\":1,2,3}"), "{\"umbralSimilitud\":1.2.3}");
    assert_eq!(
        fix_spanish_decimal("{\"umbralSimilitud\":\n\t 45,5 , \"x\": 1,5}"),
        "{\"umbralSimilitud\":\n\t 45.5 , \"x\": 1,5}"
    );
}

#[test]
fn spanish_decimal_left_alone_when_not_needed() {
    let plain = "{\"umbralSimilitud\": 30.5, \"mensaje1\": \"1,2\"}";
    assert_eq!(fix_spanish_decimal(plain), plain);
    let absent = "{\"mensaje1\": \"hola, socio\", \"umbral\": 3,0}";
    assert_eq!(fix_spanish_decimal(absent), absent);
    let no_number = "{\"umbralSimilitud\": \"30,0\"}";
    assert_eq!(fix_spanish_decimal(no_number), no_number);
    assert_eq!(fix_spanish_decimal(""), "");
    let valid = r#"{"umbralSimilitud":30,"mensaje1":"a"}"#;
    assert_eq!(fix_spanish_decimal(valid), valid);
    assert_eq!(fix_spanish_decimal(r#"{"umbralSimilitud":30,00,"mensaje1":"a"}"#), r#"{"umbralSimilitud":30.00,"mensaje1":"a"}"#);
}

#[test]
fn spanish_decimal_repair_is_idempotent() {
    for raw in [
        r#"{"umbralSimilitud": 30,00}"#,
        r#"{"umbralSimilitud":1,2,,3,}"#,
        r#"{"umbralSimilitud":30,"mensaje1":"a"}"#,
        "no key here, 1,2",
    ] {
        let once = fix_spanish_decimal(raw);
        assert_eq!(fix_spanish_decimal(&once), once);
        assert_eq!(once.len(), raw.len());
    }
    assert_eq!(fix_spanish_decimal(r#"{"umbralSimilitud":1,2,,3,}"#), r#"{"umbralSimilitud":1.2,.3,}"#);
}

#[test]
fn spanish_decimal_only_first_key_and_keeps_length() {
    let raw = "\"umbralSimilitud\":7,5 \"umbralSimilitud\":8,5";
    let fixed = fix_spanish_decimal(raw);
    assert_eq!(fixed, "\"umbralSimilitud\":7.5 \"umbralSimilitud\":8,5");
    assert_eq!(fixed.chars().count(), raw.chars().count());
}

#[test]
fn xml_escape_replaces_all_special_characters() {
    assert_eq!(xml_escape("a<b>&\"c'"), "a&lt;b&gt;&amp;&quot;c&apos;");
    assert_eq!(xml_escape("&amp;"), "&amp;amp;");
    assert_eq!(xml_escape("sin cambios ñ"), "sin cambios ñ");
    let escaped = xml_escape("<<\"'>>");
    assert!(!escaped.contains('<') && !escaped.contains('>') && !escaped.contains('"') && !escaped.contains('\''));
}

#[test]
fn build_xml_matches_the_document_layout() {
    let recs = ("uno <1>".to_string(), "dos & tres".to_string(), "cuatro".to_string());
    let ours = build_xml(
        &format!("{:.0}", 70.0f64),
        &format!("{:.1}", 12.345f64),
        &format!("{:.1}", 0.0f64),
        &format!("{:.1}", 99.96f64),
        true,
        Some(&recs),
    );
    assert_eq!(ours, reference_build_xml(70.0, 12.345, 0.0, 99.96, true, Some(&recs)));
    let none = build_xml("30", "1.0", "2.0", "3.0", false, None);
    assert_eq!(none, reference_build_xml(30.0, 1.0, 2.0, 3.0, false, None));
    assert!(none.contains("<CumpleValidacion>false</CumpleValidacion>"));
    assert!(none.contains("<Mensaje1Reescrito></Mensaje1Reescrito>"));
}

#[test]
fn error_xml_escapes_the_message() {
    assert_eq!(
        error_xml("falla <x>"),
        "<?xml version=\"1.0\" encoding=\"UTF-8\"?>\n<ValidacionSimilitud xmlns=\"Nucleo\"><Estado>ERROR</Estado><Mensaje>falla &lt;x&gt;</Mensaje></ValidacionSimilitud>"
    );
}

#[test]
fn missing_messages_are_counted() {
    assert_eq!(missing_count("a", "", ""), 2);
    assert_eq!(missing_count("a", "b", "c"), 0);
    assert_eq!(missing_count("", "", ""), 3);
}

#[test]
fn fill_prompt_lists_existing_messages() {
    let prompt = fill_prompt("Promo A", "", "Promo C");
    let expected = format!(
        "Genera {} mensaje(s) de marketing para WhatsApp con diversidad léxica. \
        REGLAS IMPORTANTES: \
        1) El sistema ya antepone automáticamente un saludo y el nombre del socio, por lo que el mensaje \
        NO debe comenzar con ningún saludo ni referencia al destinatario (nada de 'Estimado socio', \
        'Hola socio', 'Le informamos', ni similares al inicio). Comenzá directamente con el contenido. \
        2) Si dentro del cuerpo del mensaje necesitás referirte al destinatario, usá siempre 'socio' \
        (nunca cliente, miembro u otro término), porque es una cooperativa. \
        Mensajes existentes: {}. \
        Devuelve SOLO los mensajes faltantes, uno por línea, sin numeración ni explicaciones.",
        1,
        ["Promo A", "Promo C"].join(" | ")
    );
    assert_eq!(prompt, expected);
}

#[test]
fn fill_plan_cases() {
    assert!(matches!(fill_plan("a", "b", "c", ""), FillPlan::Ready));
    assert!(matches!(fill_plan("a", "", "c", ""), FillPlan::MissingApiKey));
    match fill_plan("", "", "c", "key") {
        FillPlan::Ask(p) => assert_eq!(p, fill_prompt("", "", "c")),
        _ => panic!("expected a prompt"),
    }
}

#[test]
fn fill_takes_nonblank_lines_in_order() {
    let reply = "\n   primera línea  \r\n \t \nsegunda\n";
    let (a, b, c) = fill_from_reply("", "existe", "", reply);
    assert_eq!(a, "primera línea");
    assert_eq!(b, "existe");
    assert_eq!(c, "segunda");
    let (a, b, c) = fill_from_reply("", "", "", "solo una");
    assert_eq!((a.as_str(), b.as_str(), c.as_str()), ("solo una", "Mensaje 2", "Mensaje 3"));
}

#[test]
fn rewrite_reads_three_lines_or_keeps_messages() {
    let (a, b, c) = rewrite_from_reply(" m1 ", "m2", "m3", "r1\n\nr2\nr3\nr4");
    assert_eq!((a.as_str(), b.as_str(), c.as_str()), ("r1", "r2", "r3"));
    let (a, b, c) = rewrite_from_reply(" m1 ", "m2 ", "m3", "solo\n");
    assert_eq!((a.as_str(), b.as_str(), c.as_str()), ("solo", "m2", "m3"));
    let (a, _, _) = rewrite_from_reply(" m1 ", "m2", "m3", "");
    assert_eq!(a, "m1");
}

#[test]
fn rewrite_prompt_matches_layout() {
    let (m1, m2, m3) = ("uno", "dos", "tres");
    let umbral = 45.0f64;
    let expected = format!(
        "Reescribe los siguientes 3 mensajes de marketing para WhatsApp de manera que la \
        similitud léxica entre cualquier par sea menor al {umbral:.0}%. \
        Mantén el mismo tema y tono pero usa vocabulario y estructura muy diferentes. \
        REGLAS IMPORTANTES: \
        1) El sistema ya antepone automáticamente un saludo y el nombre del socio, por lo que cada mensaje \
        NO debe comenzar con ningún saludo ni referencia al destinatario (nada de 'Estimado socio', \
        'Hola socio', 'Le informamos', ni similares al inicio). Comenzá directamente con el contenido. \
        2) Si dentro del cuerpo del mensaje necesitás referirte al destinatario, usá siempre 'socio' \
        (nunca cliente, miembro u otro término), porque es una cooperativa. \
        Mensajes originales:\n1. {m1}\n2. {m2}\n3. {m3}\n\
        Devuelve EXACTAMENTE 3 mensajes, uno por línea, sin numeración ni explicaciones."
    );
    assert_eq!(rewrite_prompt(m1, m2, m3, &format!("{umbral:.0}")), expected);
}

#[test]
fn rewrite_only_when_some_pair_is_too_similar() {
    assert_eq!(rewrite_decision(true, true, "key"), RewriteDecision::NoRecommendations);
    assert_eq!(rewrite_decision(false, true, "key"), RewriteDecision::Rewrite);
    assert_eq!(rewrite_decision(false, false, "key"), RewriteDecision::RecommendUnchanged);
    assert_eq!(rewrite_decision(false, true, ""), RewriteDecision::RecommendUnchanged);
    assert!(final_verdict(true, None));
    assert!(!final_verdict(false, None));
    assert!(final_verdict(false, Some(true)));
    assert!(!final_verdict(false, Some(false)));
}

use memory_ingest::payload::format_chunk_text;

fn read_back(payload: &str) -> (String, String) {
    let value: serde_json::Value = serde_json::from_str(payload).unwrap();
    let object = value.as_object().unwrap();
    assert_eq!(object.len(), 2);
    (
        object.get("tag").unwrap().as_str().unwrap().to_string(),
        object.get("sentence").unwrap().as_str().unwrap().to_string(),
    )
}

#[test]
fn record_has_tag_then_sentence() {
    assert_eq!(
        format_chunk_text("note", "Hello world."),
        "{\"tag\":\"note\",\"sentence\":\"Hello world.\"}"
    );
    assert_eq!(
        format_chunk_text("note", "Goodbye world."),
        "{\"tag\":\"note\",\"sentence\":\"Goodbye world.\"}"
    );
}

#[test]
fn record_of_empty_strings() {
    assert_eq!(format_chunk_text("", ""), "{\"tag\":\"\",\"sentence\":\"\"}");
}

#[test]
fn record_is_deterministic() {
    let first = format_chunk_text("diary", "It rained.");
    let second = format_chunk_text("diary", "It rained.");
    assert_eq!(first, second);
}

#[test]
fn quote_and_backslash_are_escaped() {
    assert_eq!(
        format_chunk_text("a\"b", "c\\d"),
        "{\"tag\":\"a\\\"b\",\"sentence\":\"c\\\\d\"}"
    );
}

#[test]
fn short_escapes_are_used() {
    assert_eq!(
        format_chunk_text("t", "\u{08}\t\n\u{0c}\r"),
        "{\"tag\":\"t\",\"sentence\":\"\\b\\t\\n\\f\\r\"}"
    );
}

#[test]
fn other_control_characters_are_written_in_hexadecimal() {
    assert_eq!(
        format_chunk_text("t", "\u{00}\u{01}\u{0b}\u{1a}\u{1f}"),
        "{\"tag\":\"t\",\"sentence\":\"\\u0000\\u0001\\u000b\\u001a\\u001f\"}"
    );
}

#[test]
fn every_control_character_has_its_escape() {
    let digits = "0123456789abcdef".as_bytes();
    for code in 0u8..0x20 {
        let sentence = (code as char).to_string();
        let escape = match code {
            0x08 => "\\b".to_string(),
            0x09 => "\\t".to_string(),
            0x0a => "\\n".to_string(),
            0x0c => "\\f".to_string(),
            0x0d => "\\r".to_string(),
            _ => format!(
                "\\u00{}{}",
                digits[(code / 16) as usize] as char,
                digits[(code % 16) as usize] as char
            ),
        };
        assert_eq!(
            format_chunk_text("t", &sentence),
            format!("{{\"tag\":\"t\",\"sentence\":\"{}\"}}", escape)
        );
    }
}

#[test]
fn other_characters_stand_for_themselves() {
    assert_eq!(
        format_chunk_text("é", " /\u{7f}\u{80}日本語😀"),
        "{\"tag\":\"é\",\"sentence\":\" /\u{7f}\u{80}日本語😀\"}"
    );
    for code in 0x20u8..0x80 {
        let c = code as char;
        if c != '"' && c != '\\' {
            assert_eq!(
                format_chunk_text("t", &c.to_string()),
                format!("{{\"tag\":\"t\",\"sentence\":\"{}\"}}", c)
            );
        }
    }
}

#[test]
fn both_values_read_back_exactly() {
    let samples = [
        "",
        "note",
        "Hello world.",
        "with \"quotes\" and \\ backslashes \\\"",
        "line\nbreak\ttab\r\u{08}\u{0c}\u{00}\u{1f}",
        "\",\"sentence\":\"",
        "{\"tag\":\"x\"}",
        "日本語 😀 é \u{7f}",
        "\\u0041",
    ];
    for tag in samples {
        for sentence in samples {
            let payload = format_chunk_text(tag, sentence);
            let (tag_back, sentence_back) = read_back(&payload);
            assert_eq!(tag_back, tag);
            assert_eq!(sentence_back, sentence);
        }
    }
}

#[test]
fn distinct_pairs_give_distinct_records() {
    let tags = ["", "a", "a\"", "a\",\"sentence\":\"b", "tag"];
    let sentences = ["", "b", "\"b", "b\"}", "a", "\\"];
    let mut seen: Vec<(String, &str, &str)> = Vec::new();
    for tag in tags {
        for sentence in sentences {
            let payload = format_chunk_text(tag, sentence);
            for (other, other_tag, other_sentence) in &seen {
                if *other == payload {
                    panic!(
                        "{:?} and {:?} share a record",
                        (tag, sentence),
                        (other_tag, other_sentence)
                    );
                }
            }
            seen.push((payload, tag, sentence));
        }
    }
    assert_eq!(seen.len(), tags.len() * sentences.len());
}

#[test]
fn a_quote_in_the_tag_does_not_pass_for_the_sentence() {
    assert_ne!(
        format_chunk_text("a\",\"sentence\":\"b", "c"),
        format_chunk_text("a", "b\",\"sentence\":\"c")
    );
}

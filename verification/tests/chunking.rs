use ai::chunking::{chunk_user_message, parse_document_message, split_at_paragraphs, MAX_CHUNK_CHARS};

#[test]
fn small_message_not_chunked() {
    let msg = "Hello, extract this please.";
    let chunks = chunk_user_message(msg);
    assert_eq!(chunks.len(), 1);
    assert_eq!(chunks[0], msg);
}

#[test]
fn small_document_not_chunked() {
    let msg = "[Document content]\nShort doc.\n\n[User message]\nExtract this.";
    let chunks = chunk_user_message(msg);
    assert_eq!(chunks.len(), 1);
    assert_eq!(chunks[0], msg);
}

#[test]
fn large_document_chunked() {
    let paragraph = "This is a paragraph with enough text to fill space. ".repeat(100);
    let doc = format!("{paragraph}\n\n{paragraph}\n\n{paragraph}\n\n{paragraph}");
    let msg = format!("[Document content]\n{doc}\n\n[User message]\nPlease extract.");

    let chunks = chunk_user_message(&msg);
    assert!(
        chunks.len() > 1,
        "Expected multiple chunks, got {}",
        chunks.len()
    );
    assert!(chunks[0].contains("[User message]"));
    assert!(chunks[0].contains("Part 1/"));
    assert!(chunks[1].contains("Continue extracting"));
    assert!(chunks[1].contains("Part 2/"));
}

#[test]
fn document_only_no_user_message() {
    let paragraph = "Text content repeated many times. ".repeat(200);
    let doc = format!("{paragraph}\n\n{paragraph}");
    let msg = format!("[Document content]\n{doc}");

    let chunks = chunk_user_message(&msg);
    assert!(chunks.len() > 1);
    assert!(!chunks[0].contains("[User message]"));
}

#[test]
fn splits_at_paragraph_boundaries() {
    let part_a = "a".repeat(6000);
    let part_b = "b".repeat(6000);
    let part_c = "c".repeat(6000);
    let doc = format!("{part_a}\n\n{part_b}\n\n{part_c}");
    let msg = format!("[Document content]\n{doc}");

    let chunks = chunk_user_message(&msg);
    for chunk in &chunks {
        let content = chunk
            .lines()
            .skip(1)
            .collect::<Vec<_>>()
            .join("\n");
        assert!(
            content.len() <= MAX_CHUNK_CHARS + 200,
            "Chunk too large: {} chars",
            content.len()
        );
    }
}

#[test]
fn exact_parts_of_three_paragraph_document() {
    let part_a = "a".repeat(6000);
    let part_b = "b".repeat(6000);
    let part_c = "c".repeat(6000);
    let doc = format!("{part_a}\n\n{part_b}\n\n{part_c}");
    let msg = format!("[Document content]\n{doc}\n\n[User message]\nGo.");
    let chunks = chunk_user_message(&msg);
    assert_eq!(chunks.len(), 3);
    assert_eq!(
        chunks[0],
        format!("[Document content \u{2014} Part 1/3]\n{part_a}\n\n\n\n[User message]\nGo.")
    );
    assert_eq!(
        chunks[1],
        format!("[Document content \u{2014} Part 2/3]\n{part_b}\n\n\n\nContinue extracting knowledge from this part of the document. Reuse existing schemas and resolve entities that appeared in previous parts.")
    );
    assert_eq!(
        chunks[2],
        format!("[Document content \u{2014} Part 3/3]\n{part_c}\n\nContinue extracting knowledge from this part of the document. Reuse existing schemas and resolve entities that appeared in previous parts.")
    );
}

#[test]
fn split_falls_back_to_line_breaks_then_hard_cuts() {
    let text = format!("{}\n{}", "x".repeat(5), "y".repeat(12));
    let parts = split_at_paragraphs(&text, 8);
    assert_eq!(parts, vec!["xxxxx\n".to_string(), "yyyyyyyy".to_string(), "yyyy".to_string()]);
}

#[test]
fn split_trims_leading_whitespace_of_each_part() {
    let parts = split_at_paragraphs("ab\n\n  cd", 4);
    assert_eq!(parts, vec!["ab\n\n".to_string(), "cd".to_string()]);
}

#[test]
fn split_counts_bytes_of_multibyte_characters() {
    // each 'é' is two bytes: the window of 4 bytes holds two of them
    let parts = split_at_paragraphs("éééé", 4);
    assert_eq!(parts, vec!["éé".to_string(), "éé".to_string()]);
}

#[test]
fn parse_document_message_cases() {
    assert_eq!(parse_document_message("plain"), (None, None));
    assert_eq!(
        parse_document_message("[Document content]\nD\n\n[User message]\nU"),
        (Some("D".to_string()), Some("U".to_string()))
    );
    assert_eq!(
        parse_document_message("[Document content]\nonly doc"),
        (Some("only doc".to_string()), None)
    );
}

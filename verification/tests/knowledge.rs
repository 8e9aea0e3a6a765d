use tl_storage::knowledge::{chunk_text, chunks_for_source, NewKnowledgeFile, NewKnowledgeSource};

#[test]
fn chunks_notes_without_splitting_small_paragraphs() {
    let chunks = chunk_text("Refunds last 30 days.\n\nWarranty lasts 1 year.", 1_500);
    assert_eq!(
        chunks,
        vec!["Refunds last 30 days.\n\nWarranty lasts 1 year."]
    );
}

#[test]
fn chunks_long_text_on_word_boundaries() {
    let chunks = chunk_text("alpha beta gamma delta", 12);
    assert_eq!(chunks, vec!["alpha beta", "gamma delta"]);
}

#[test]
fn chunks_single_long_words() {
    let chunks = chunk_text("abcdefghijkl", 5);
    assert_eq!(chunks, vec!["abcde", "fghij", "kl"]);
}

#[test]
fn extracts_text_like_file_chunks() {
    let source = NewKnowledgeSource {
        title: "FAQ".into(),
        kind: "file".into(),
        location: None,
        notes: None,
        file: Some(NewKnowledgeFile {
            file_name: "faq.md".into(),
            media_type: "text/markdown".into(),
            data: b"Supported content".to_vec(),
        }),
    };

    assert_eq!(chunks_for_source(&source), vec!["Supported content"]);
}

#[test]
fn skips_binary_file_chunks() {
    let source = NewKnowledgeSource {
        title: "PDF".into(),
        kind: "file".into(),
        location: None,
        notes: None,
        file: Some(NewKnowledgeFile {
            file_name: "policy.pdf".into(),
            media_type: "application/pdf".into(),
            data: vec![0, 159, 146, 150],
        }),
    };

    assert!(chunks_for_source(&source).is_empty());
}

#[test]
fn every_chunk_fits_the_limit() {
    let text = "one two three four five six seven eight nine ten eleven twelve";
    for max in 1..20usize {
        for chunk in chunk_text(text, max) {
            let n = chunk.chars().count();
            assert!(n > 0 && n <= max, "chunk {chunk:?} for max {max}");
        }
    }
}

#[test]
fn chunks_keep_every_visible_character() {
    let text = "  Alpha beta\tgamma.\n\n\n\nsupercalifragilistic word\n\n  \n\nlast  paragraph here ";
    for max in [0usize, 1, 3, 5, 8, 13, 40, 200] {
        let chunks = chunk_text(text, max);
        let from_chunks: String = chunks
            .concat()
            .chars()
            .filter(|c| !c.is_whitespace())
            .collect();
        let from_text: String = text.chars().filter(|c| !c.is_whitespace()).collect();
        assert_eq!(from_chunks, from_text, "limit {max}");
    }
}

#[test]
fn chunks_are_trimmed_and_packed_greedily() {
    let text = " alpha beta \n\n gamma\n\ndelta epsilon zeta \n\n\n\n eta \n\ntheta iota";
    for max in [18usize, 20, 25, 30, 60] {
        let chunks = chunk_text(text, max);
        for c in &chunks {
            assert_eq!(c.trim(), c.as_str());
        }
        for pair in chunks.windows(2) {
            let joined = pair[0].chars().count() + 2 + pair[1].chars().count();
            assert!(joined > max, "{pair:?} could share a chunk under {max}");
        }
    }
}

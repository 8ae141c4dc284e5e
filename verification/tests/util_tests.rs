//! Tests for keyword completion and chunked strings.

use fxa_client::util::{full_keyword, u64_to_decimal, ChunkedString, ChunkedStringIter};

fn kw(words: &[&str]) -> Vec<String> {
    words.iter().map(|w| (*w).to_owned()).collect()
}

#[test]
fn keywords_with_more_words() {
    assert_eq!(
        full_keyword(
            "moz",
            &kw(&[
                "moz",
                "mozi",
                "mozil",
                "mozill",
                "mozilla",
                "mozilla firefox"
            ])
        ),
        "mozilla".to_owned(),
    );
    assert_eq!(
        full_keyword(
            "mozilla",
            &kw(&[
                "moz",
                "mozi",
                "mozil",
                "mozill",
                "mozilla",
                "mozilla firefox"
            ])
        ),
        "mozilla".to_owned(),
    );
}

#[test]
fn keywords_with_longer_phrase() {
    assert_eq!(
        full_keyword("moz", &kw(&["moz", "mozi", "mozil", "mozill", "mozilla"])),
        "mozilla".to_owned()
    );
    assert_eq!(
        full_keyword(
            "mozilla f",
            &kw(&["moz", "mozi", "mozil", "mozill", "mozilla firefox"])
        ),
        "mozilla firefox".to_owned()
    );
}

#[test]
fn query_ends_with_space() {
    assert_eq!(
        full_keyword(
            "mozilla ",
            &kw(&["moz", "mozi", "mozil", "mozill", "mozilla firefox"])
        ),
        "mozilla firefox".to_owned()
    );
}

fn collect_chunks(
    all_chunks: &mut Vec<String>,
    current_chunk: &mut Vec<String>,
    mut iter: ChunkedStringIter<'_>,
) {
    if iter.at_end() {
        if !current_chunk.is_empty() {
            all_chunks.push(current_chunk.join(":"));
        }
    } else {
        while let Some((chunk, child_iter)) = iter.next() {
            current_chunk.push(chunk.to_owned());
            collect_chunks(all_chunks, current_chunk, child_iter);
            current_chunk.pop();
        }
    }
}

/// Test a ChunkedString by iterating through all nested chunks and creating a
/// Vec of strings by joining them together.  Each string has the form
/// "[chunk1]:[chunk2]:...[chunkn]".
fn check_chunk_string(chunked: ChunkedString, mut correct_strings: Vec<&'static str>) {
    let mut all_chunks = vec![];
    collect_chunks(&mut all_chunks, &mut vec![], chunked.iter());
    all_chunks.sort();
    correct_strings.sort();
    assert_eq!(all_chunks, correct_strings);
}

#[test]
fn test_chunked_string() {
    check_chunk_string(
        ChunkedString::new("a b c".into(), 3),
        vec!["a b c", "a b:c", "a:b c", "a:b:c"],
    );
}

#[test]
fn test_chunked_string_extra_whitespace() {
    // Extra whitespace on the end is ignored
    check_chunk_string(
        ChunkedString::new("  a b c  ".into(), 3),
        vec!["a b c", "a b:c", "a:b c", "a:b:c"],
    );
    // Extra whitespace in the middle appears in the chunks, but doesn't
    // affect the word splitting
    check_chunk_string(
        ChunkedString::new("a  b  c".into(), 3),
        vec!["a  b  c", "a  b:c", "a:b  c", "a:b:c"],
    );
}

#[test]
fn test_chunked_string_max_size() {
    check_chunk_string(
        ChunkedString::new("a b c".into(), 2),
        vec![
            // No "a b c", since that would be would be size=3
            "a b:c", "a:b c", "a:b:c",
        ],
    );
    check_chunk_string(
        ChunkedString::new("a b c".into(), 1),
        vec![
            // This is the only result, since each chunk can only have 1 word
            "a:b:c",
        ],
    );
    // Corner case: when max_size=0, then it should not generate any items
    check_chunk_string(ChunkedString::new("a b c".into(), 0), vec![]);
}

#[test]
fn query_without_match_completes_to_itself() {
    assert_eq!(full_keyword("xyz", &kw(&["moz", "mozilla"])), "xyz".to_owned());
    assert_eq!(full_keyword("mozilla", &kw(&["mozilla"])), "mozilla".to_owned());
}

#[test]
fn decimal_formatting() {
    assert_eq!(u64_to_decimal(0), "0");
    assert_eq!(u64_to_decimal(7), "7");
    assert_eq!(u64_to_decimal(40), "40");
    assert_eq!(u64_to_decimal(255), "255");
    assert_eq!(u64_to_decimal(65535), "65535");
    assert_eq!(u64_to_decimal(1000000), "1000000");
}

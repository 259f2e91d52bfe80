use tectonic_api::bundle_index::{
    next_copy_step, parse_file_index, parse_file_index_lines, CopyStep, FileIndexEntry,
    IndexParseError,
};

fn entry(name: &str, offset: u64, length: u64) -> FileIndexEntry {
    FileIndexEntry { name: name.to_string(), offset, length }
}

#[test]
fn parses_a_well_formed_line() {
    assert_eq!(parse_file_index("tex/latex/base/article.cls 1024 20480"), Ok(entry("tex/latex/base/article.cls", 1024, 20480)));
}

#[test]
fn ignores_surrounding_white_space_and_extra_words() {
    assert_eq!(parse_file_index("  \tfont.tfm\t+7   0008 trailing words\n"), Ok(entry("font.tfm", 7, 8)));
    assert_eq!(parse_file_index("a\u{3000}1\u{2003}2"), Ok(entry("a", 1, 2)));
}

#[test]
fn reports_the_first_missing_or_bad_field() {
    assert_eq!(parse_file_index(""), Err(IndexParseError::MissingName));
    assert_eq!(parse_file_index(" \t "), Err(IndexParseError::MissingName));
    assert_eq!(parse_file_index("name"), Err(IndexParseError::MissingOffset));
    assert_eq!(parse_file_index("name x"), Err(IndexParseError::InvalidOffset));
    assert_eq!(parse_file_index("name x 5"), Err(IndexParseError::InvalidOffset));
    assert_eq!(parse_file_index("name 1"), Err(IndexParseError::MissingLength));
    assert_eq!(parse_file_index("name 1 y"), Err(IndexParseError::InvalidLength));
    assert_eq!(parse_file_index("name -1 2"), Err(IndexParseError::InvalidOffset));
    assert_eq!(parse_file_index("name + 2"), Err(IndexParseError::InvalidOffset));
    assert_eq!(parse_file_index("name 1 2.5"), Err(IndexParseError::InvalidLength));
}

#[test]
fn offsets_and_lengths_are_64_bit() {
    assert_eq!(parse_file_index("n 18446744073709551615 0"), Ok(entry("n", u64::MAX, 0)));
    assert_eq!(parse_file_index("n 18446744073709551616 0"), Err(IndexParseError::InvalidOffset));
    assert_eq!(parse_file_index("n 0 99999999999999999999"), Err(IndexParseError::InvalidLength));
}

#[test]
fn index_lines_that_describe_no_file_are_passed_over() {
    let lines = vec![
        "a.tex 0 10".to_string(),
        "garbage".to_string(),
        String::new(),
        "b.tex 10 5 extra".to_string(),
        "c.tex ten 5".to_string(),
        "d.tex 15 1".to_string(),
    ];
    assert_eq!(
        parse_file_index_lines(&lines),
        vec![entry("a.tex", 0, 10), entry("b.tex", 10, 5), entry("d.tex", 15, 1)]
    );
    assert_eq!(parse_file_index_lines(&Vec::new()), Vec::new());
}

#[test]
fn copy_steps_skip_to_each_offset() {
    assert_eq!(next_copy_step(0, &entry("a", 0, 10)), CopyStep { skip: 0, length: 10, position_after: Some(10) });
    assert_eq!(next_copy_step(10, &entry("b", 25, 5)), CopyStep { skip: 15, length: 5, position_after: Some(30) });
    assert_eq!(next_copy_step(30, &entry("c", 20, 5)), CopyStep { skip: 0, length: 5, position_after: Some(25) });
}

#[test]
fn a_file_that_ends_beyond_64_bits_has_no_position_after() {
    let step = next_copy_step(5, &entry("big", u64::MAX, 1));
    assert_eq!(step, CopyStep { skip: u64::MAX - 5, length: 1, position_after: None });
}

#[test]
fn ascending_files_are_cut_at_their_offsets() {
    let entries = vec![entry("a", 0, 10), entry("b", 10, 5), entry("c", 40, 2), entry("d", 42, 0)];
    let mut position = 0u64;
    let mut read = 0u64;
    for e in &entries {
        let step = next_copy_step(position, e);
        read += step.skip;
        assert_eq!(read, e.offset);
        read += step.length;
        position = step.position_after.unwrap();
        assert_eq!(read, position);
    }
}

/// The original reading of an index line, with `split_whitespace` and `parse`.
fn read_with_std(line: &str) -> Result<FileIndexEntry, IndexParseError> {
    let mut fields = line.split_whitespace();
    let name = fields.next().ok_or(IndexParseError::MissingName)?.to_string();
    let offset: u64 = fields
        .next()
        .ok_or(IndexParseError::MissingOffset)?
        .parse()
        .map_err(|_| IndexParseError::InvalidOffset)?;
    let length: u64 = fields
        .next()
        .ok_or(IndexParseError::MissingLength)?
        .parse()
        .map_err(|_| IndexParseError::InvalidLength)?;
    Ok(FileIndexEntry { name, offset, length })
}

#[test]
fn agrees_with_split_whitespace_and_parse() {
    let pieces = ["", " ", "\t", "\u{a0}", "\u{2028}", "x", "ä.sty", "12", "+3", "-4", "0", "18446744073709551616", "a b"];
    for p1 in pieces {
        for p2 in pieces {
            for p3 in pieces {
                for sep in [" ", "\t\u{3000}"] {
                    let line = format!("{p1}{sep}{p2}{sep}{p3}");
                    assert_eq!(parse_file_index(&line), read_with_std(&line), "{line:?}");
                }
            }
        }
    }
}

#[test]
fn a_written_line_reads_back() {
    for (name, offset, length) in [("a", 0u64, 0u64), ("fonts/lmroman10-regular.otf", 123456, 7890), ("z", u64::MAX, u64::MAX)] {
        let line = format!("{name} {offset} {length}");
        assert_eq!(parse_file_index(&line), Ok(entry(name, offset, length)));
    }
}

#[test]
fn words_after_the_third_change_nothing() {
    for line in ["a 1 2", "\ta.tex 12 34", "x +5 007"] {
        for rest in ["", "junk", "more words 99", "\t"] {
            assert_eq!(parse_file_index(&format!("{line} {rest}")), parse_file_index(line));
        }
    }
}

#[test]
fn a_line_means_what_its_words_mean() {
    for line in ["\t a.tex   12 \t 34 ", "a", " b  x ", "c 1\u{3000}2\u{2028}z", ""] {
        let rejoined = line.split_whitespace().collect::<Vec<_>>().join(" ");
        assert_eq!(parse_file_index(line), parse_file_index(&rejoined));
    }
    assert_eq!(parse_file_index("\t a.tex   12 \t 34 "), Ok(entry("a.tex", 12, 34)));
}

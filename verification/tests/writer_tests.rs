use gitchain::errors::WriterErrors;
use gitchain::writer::{
    append_nonce_to_blob, blob_from_formatted_time, format_author, generate_blob,
    prepend_header_to_blob, CommitTime,
};

const RECORD_WITH_PARENT: &str = "tree TreeTest\n\
                                  parent ParentTest\n\
                                  author AuthorTest <test@test.com> 1454691142 -0000\n\
                                  committer AuthorTest <test@test.com> 1454691142 -0000\n\n\
                                  MessageTest";

fn commit_time_of(tm: time::Tm) -> CommitTime {
    CommitTime {
        tm_sec: tm.tm_sec,
        tm_min: tm.tm_min,
        tm_hour: tm.tm_hour,
        tm_mday: tm.tm_mday,
        tm_mon: tm.tm_mon,
        tm_year: tm.tm_year,
        tm_wday: tm.tm_wday,
        tm_yday: tm.tm_yday,
        tm_isdst: tm.tm_isdst,
        tm_utcoff: tm.tm_utcoff,
        tm_nsec: tm.tm_nsec,
    }
}

fn fixture_time() -> CommitTime {
    commit_time_of(time::strptime("2016-02-05 16:52:22", "%Y-%m-%d %H:%M:%S").unwrap())
}

fn blob_at(commit_time: CommitTime) -> Result<String, WriterErrors> {
    generate_blob(
        "TreeTest".to_string(),
        Some("ParentTest".to_string()),
        "AuthorTest <test@test.com>".to_string(),
        "MessageTest".to_string(),
        commit_time,
    )
}

#[test]
fn test_appending_nonce() {
    let blob = append_nonce_to_blob("test", 15);
    assert_eq!(blob, "test\n0000000f");
}

#[test]
fn test_prepending_header() {
    let blob = prepend_header_to_blob("test");
    assert_eq!(blob, "commit 4\0test");
}

#[test]
fn test_blob_generation_with_parent() -> Result<(), String> {
    let tree = "TreeTest".to_string();
    let parent = Some("ParentTest".to_string());
    let author = "AuthorTest <test@test.com>".to_string();
    let message = "MessageTest".to_string();
    let commit_time = time::strptime("2016-02-05 16:52:22", "%Y-%m-%d %H:%M:%S")
        .map_err(|e| format!("{:?}", e))?;
    let blob = generate_blob(tree, parent, author, message, commit_time_of(commit_time))
        .map_err(|e| format!("{:?}", e))?;

    let expected = "tree TreeTest\n\
                    parent ParentTest\n\
                    author AuthorTest <test@test.com> 1454691142 -0000\n\
                    committer AuthorTest <test@test.com> 1454691142 -0000\n\n\
                    MessageTest";
    assert_eq!(blob, expected);

    Ok(())
}

#[test]
fn test_blob_generation_without_parent() -> Result<(), String> {
    let tree = "TreeTest".to_string();
    let parent = None;
    let author = "AuthorTest <test@test.com>".to_string();
    let message = "MessageTest".to_string();
    let commit_time = time::strptime("2016-02-05 16:52:22", "%Y-%m-%d %H:%M:%S")
        .map_err(|e| format!("{:?}", e))?;
    let blob = generate_blob(tree, parent, author, message, commit_time_of(commit_time))
        .map_err(|e| format!("{:?}", e))?;

    let expected = "tree TreeTest\n\
                    author AuthorTest <test@test.com> 1454691142 -0000\n\
                    committer AuthorTest <test@test.com> 1454691142 -0000\n\n\
                    MessageTest";
    assert_eq!(blob, expected);

    Ok(())
}

#[test]
fn nonce_fifteen_ends_the_record_with_its_hex_digits() {
    let candidate = append_nonce_to_blob(RECORD_WITH_PARENT, 15);
    assert!(candidate.ends_with("MessageTest\n0000000f"));
    assert_eq!(candidate, format!("{}\n0000000f", RECORD_WITH_PARENT));
}

#[test]
fn nonce_zero_is_eight_zeros() {
    assert_eq!(append_nonce_to_blob("x", 0), "x\n00000000");
}

#[test]
fn largest_nonce_is_eight_fs() {
    assert_eq!(append_nonce_to_blob("x", 4294967295), "x\nffffffff");
}

#[test]
fn nonce_digits_are_lowercase_and_most_significant_first() {
    assert_eq!(append_nonce_to_blob("", 0xDEADBEEF), "\ndeadbeef");
    assert_eq!(append_nonce_to_blob("", 0x01234567), "\n01234567");
    assert_eq!(append_nonce_to_blob("", 0x89ABCDEF), "\n89abcdef");
    assert_eq!(append_nonce_to_blob("", 16), "\n00000010");
}

#[test]
fn nonce_suffix_is_a_line_feed_and_eight_lowercase_hex_digits() {
    for nonce in [0u32, 1, 9, 10, 255, 4096, 65535, 1 << 31, u32::MAX - 1, u32::MAX] {
        let candidate = append_nonce_to_blob("record", nonce);
        assert_eq!(candidate.len(), "record".len() + 9);
        let suffix = &candidate["record".len()..];
        assert!(suffix.starts_with('\n'));
        assert!(suffix[1..].chars().all(|c| matches!(c, '0'..='9' | 'a'..='f')));
        assert_eq!(u32::from_str_radix(&suffix[1..], 16), Ok(nonce));
    }
}

#[test]
fn nonce_leaves_the_record_as_it_is() {
    let candidate = append_nonce_to_blob(RECORD_WITH_PARENT, 7);
    assert!(candidate.starts_with(RECORD_WITH_PARENT));
}

#[test]
fn header_of_the_empty_record() {
    assert_eq!(prepend_header_to_blob(""), "commit 0\0");
}

#[test]
fn header_counts_bytes_not_characters() {
    assert_eq!(prepend_header_to_blob("é"), "commit 2\0é");
    assert_eq!(prepend_header_to_blob("日本語"), "commit 9\0日本語");
}

#[test]
fn header_of_a_whole_record() {
    let headed = prepend_header_to_blob(RECORD_WITH_PARENT);
    assert_eq!(headed, format!("commit {}\0{}", RECORD_WITH_PARENT.len(), RECORD_WITH_PARENT));
    assert!(headed.starts_with("commit 149\0tree TreeTest\n"));
}

#[test]
fn header_length_with_several_digits() {
    let blob = "a".repeat(1000);
    assert_eq!(prepend_header_to_blob(&blob), format!("commit 1000\0{}", blob));
}

#[test]
fn record_with_parent_has_its_lines_in_order() {
    let blob = blob_at(fixture_time()).unwrap();
    let lines: Vec<&str> = blob.split('\n').collect();
    assert_eq!(
        lines,
        vec![
            "tree TreeTest",
            "parent ParentTest",
            "author AuthorTest <test@test.com> 1454691142 -0000",
            "committer AuthorTest <test@test.com> 1454691142 -0000",
            "",
            "MessageTest",
        ]
    );
    assert_eq!(&lines[2]["author".len()..], &lines[3]["committer".len()..]);
    assert!(!blob.ends_with('\n'));
}

#[test]
fn record_without_parent_has_no_parent_line() {
    let blob = generate_blob(
        "TreeTest".to_string(),
        None,
        "AuthorTest <test@test.com>".to_string(),
        "MessageTest".to_string(),
        fixture_time(),
    )
    .unwrap();
    let lines: Vec<&str> = blob.split('\n').collect();
    assert_eq!(
        lines,
        vec![
            "tree TreeTest",
            "author AuthorTest <test@test.com> 1454691142 -0000",
            "committer AuthorTest <test@test.com> 1454691142 -0000",
            "",
            "MessageTest",
        ]
    );
    assert!(!blob.contains("parent "));
}

#[test]
fn empty_message_leaves_the_blank_line_last() {
    let blob = generate_blob(
        "T".to_string(),
        None,
        "A".to_string(),
        String::new(),
        fixture_time(),
    )
    .unwrap();
    assert_eq!(blob, "tree T\nauthor A 1454691142 -0000\ncommitter A 1454691142 -0000\n\n");
}

#[test]
fn message_with_line_feeds_is_kept_as_it_is() {
    let blob = generate_blob(
        "T".to_string(),
        Some("P".to_string()),
        "A".to_string(),
        "first\n\nsecond\n".to_string(),
        fixture_time(),
    )
    .unwrap();
    assert_eq!(
        blob,
        "tree T\nparent P\nauthor A 1454691142 -0000\ncommitter A 1454691142 -0000\n\nfirst\n\nsecond\n"
    );
}

#[test]
fn offset_east_of_utc_has_a_plus_sign() {
    let mut commit_time = fixture_time();
    commit_time.tm_utcoff = 3600;
    let blob = blob_at(commit_time).unwrap();
    let author_line = blob.split('\n').nth(2).unwrap();
    assert!(author_line.ends_with(" +0100"));
}

#[test]
fn offset_west_of_utc_has_a_minus_sign_and_minutes() {
    let mut commit_time = fixture_time();
    commit_time.tm_utcoff = -(5 * 3600 + 30 * 60);
    let blob = blob_at(commit_time).unwrap();
    let author_line = blob.split('\n').nth(2).unwrap();
    assert!(author_line.ends_with(" -0530"));
    let committer_line = blob.split('\n').nth(3).unwrap();
    assert!(committer_line.ends_with(" -0530"));
}

#[test]
fn widest_offsets_are_written() {
    let mut commit_time = fixture_time();
    commit_time.tm_utcoff = 359_999;
    let blob = blob_at(commit_time).unwrap();
    assert!(blob.split('\n').nth(2).unwrap().ends_with(" +9959"));
    commit_time.tm_utcoff = -359_999;
    let blob = blob_at(commit_time).unwrap();
    assert!(blob.split('\n').nth(2).unwrap().ends_with(" -9959"));
}

#[test]
fn seconds_before_the_epoch_are_negative() {
    let commit_time = time::strptime("1969-12-31 23:59:59", "%Y-%m-%d %H:%M:%S").unwrap();
    let blob = blob_at(commit_time_of(commit_time)).unwrap();
    assert_eq!(
        blob.split('\n').nth(2).unwrap(),
        "author AuthorTest <test@test.com> -1 -0000"
    );
}

#[test]
fn the_epoch_is_second_zero() {
    let commit_time = time::strptime("1970-01-01 00:00:00", "%Y-%m-%d %H:%M:%S").unwrap();
    let blob = blob_at(commit_time_of(commit_time)).unwrap();
    assert_eq!(
        blob.split('\n').nth(3).unwrap(),
        "committer AuthorTest <test@test.com> 0 -0000"
    );
}

#[test]
fn month_out_of_range_is_a_time_format_error() {
    let mut commit_time = fixture_time();
    commit_time.tm_mon = 12;
    assert_eq!(blob_at(commit_time), Err(WriterErrors::TimeFormatError));
    commit_time.tm_mon = -1;
    assert_eq!(blob_at(commit_time), Err(WriterErrors::TimeFormatError));
}

#[test]
fn weekday_out_of_range_is_a_time_format_error() {
    let mut commit_time = fixture_time();
    commit_time.tm_wday = 7;
    assert_eq!(blob_at(commit_time), Err(WriterErrors::TimeFormatError));
    commit_time.tm_wday = -1;
    assert_eq!(blob_at(commit_time), Err(WriterErrors::TimeFormatError));
}

#[test]
fn nanoseconds_out_of_range_are_a_time_format_error() {
    let mut commit_time = fixture_time();
    commit_time.tm_nsec = 1_000_000_000;
    assert_eq!(blob_at(commit_time), Err(WriterErrors::TimeFormatError));
    commit_time.tm_nsec = -1;
    assert_eq!(blob_at(commit_time), Err(WriterErrors::TimeFormatError));
    commit_time.tm_nsec = 999_999_999;
    assert!(blob_at(commit_time).is_ok());
}

#[test]
fn offset_of_a_hundred_hours_is_a_time_format_error() {
    let mut commit_time = fixture_time();
    commit_time.tm_utcoff = 360_000;
    assert_eq!(blob_at(commit_time), Err(WriterErrors::TimeFormatError));
    commit_time.tm_utcoff = -360_000;
    assert_eq!(blob_at(commit_time), Err(WriterErrors::TimeFormatError));
    commit_time.tm_utcoff = i32::MIN;
    assert_eq!(blob_at(commit_time), Err(WriterErrors::TimeFormatError));
    commit_time.tm_utcoff = i32::MAX;
    assert_eq!(blob_at(commit_time), Err(WriterErrors::TimeFormatError));
}

#[test]
fn last_weekday_and_month_are_written() {
    let mut commit_time = fixture_time();
    commit_time.tm_wday = 6;
    commit_time.tm_mon = 11;
    assert!(blob_at(commit_time).is_ok());
    commit_time.tm_wday = 0;
    commit_time.tm_mon = 0;
    assert!(blob_at(commit_time).is_ok());
}

#[test]
fn record_around_a_time_that_is_text() {
    let blob = blob_from_formatted_time(
        "T".to_string(),
        Some("P".to_string()),
        "A <a@b>".to_string(),
        "M".to_string(),
        Ok("12 +0200".to_string()),
    );
    assert_eq!(
        blob,
        Ok("tree T\nparent P\nauthor A <a@b> 12 +0200\ncommitter A <a@b> 12 +0200\n\nM".to_string())
    );
    let blob = blob_from_formatted_time(
        "T".to_string(),
        None,
        "A <a@b>".to_string(),
        "M".to_string(),
        Ok("12 +0200".to_string()),
    );
    assert_eq!(
        blob,
        Ok("tree T\nauthor A <a@b> 12 +0200\ncommitter A <a@b> 12 +0200\n\nM".to_string())
    );
}

#[test]
fn record_around_a_time_that_failed() {
    let blob = blob_from_formatted_time(
        "T".to_string(),
        Some("P".to_string()),
        "A".to_string(),
        "M".to_string(),
        Err(time::ParseError::InvalidMonth),
    );
    assert_eq!(blob, Err(WriterErrors::TimeFormatError));
}

#[test]
fn author_is_the_name_and_the_address_in_angle_brackets() {
    assert_eq!(format_author("AuthorTest", "test@test.com"), "AuthorTest <test@test.com>");
    assert_eq!(format_author("A B", "a@b"), "A B <a@b>");
    assert_eq!(format_author("", ""), " <>");
}

#[test]
fn each_header_word_begins_one_line() {
    let blob = blob_at(fixture_time()).unwrap();
    let header: Vec<&str> = blob.split('\n').take_while(|line| !line.is_empty()).collect();
    assert_eq!(header.len(), 4);
    for word in ["tree ", "parent ", "author ", "committer "] {
        assert_eq!(header.iter().filter(|line| line.starts_with(word)).count(), 1);
    }
    let blob = generate_blob(
        "TreeTest".to_string(),
        None,
        "AuthorTest <test@test.com>".to_string(),
        "MessageTest".to_string(),
        fixture_time(),
    )
    .unwrap();
    let header: Vec<&str> = blob.split('\n').take_while(|line| !line.is_empty()).collect();
    assert_eq!(header.len(), 3);
    for word in ["tree ", "author ", "committer "] {
        assert_eq!(header.iter().filter(|line| line.starts_with(word)).count(), 1);
    }
    assert_eq!(header.iter().filter(|line| line.starts_with("parent ")).count(), 0);
}

#[test]
fn fixture_time_is_the_fifth_of_february() {
    let commit_time = fixture_time();
    assert_eq!(
        commit_time,
        CommitTime {
            tm_sec: 22,
            tm_min: 52,
            tm_hour: 16,
            tm_mday: 5,
            tm_mon: 1,
            tm_year: 116,
            tm_wday: 0,
            tm_yday: 0,
            tm_isdst: 0,
            tm_utcoff: 0,
            tm_nsec: 0,
        }
    );
    assert_eq!(
        blob_at(commit_time).unwrap().split('\n').nth(2).unwrap(),
        "author AuthorTest <test@test.com> 1454691142 -0000"
    );
}

#[test]
fn each_field_of_the_clock_moves_the_seconds() {
    let seconds_at = |commit_time: CommitTime| -> String {
        let blob = blob_at(commit_time).unwrap();
        let line = blob.split('\n').nth(2).unwrap().to_string();
        line["author AuthorTest <test@test.com> ".len()..line.len() - " -0000".len()].to_string()
    };
    let base = fixture_time();
    assert_eq!(seconds_at(base), "1454691142");
    assert_eq!(seconds_at(CommitTime { tm_sec: 23, ..base }), "1454691143");
    assert_eq!(seconds_at(CommitTime { tm_min: 53, ..base }), "1454691202");
    assert_eq!(seconds_at(CommitTime { tm_hour: 17, ..base }), "1454694742");
    assert_eq!(seconds_at(CommitTime { tm_mday: 6, ..base }), "1454777542");
    assert_eq!(seconds_at(CommitTime { tm_mon: 2, ..base }), "1457196742");
    assert_eq!(seconds_at(CommitTime { tm_year: 117, ..base }), "1486313542");
    assert_eq!(seconds_at(CommitTime { tm_nsec: 5, ..base }), "1454691142");
}

//! The text of a commit record: its lines in the order in which the object
//! store hashes them, the nonce behind it, the header before it, and what
//! holds of the three.

use crate::lines::{
    lemma_lines_before_blank_line, lemma_unlines_of_lines, lines, single_line, unlines,
};
use crate::text::{
    all_lower_hex, byte_len, decimal, hex8, hex_padded, hex_value, is_decimal_digit,
    lemma_ascii_byte_len, lemma_decimal_digits, lemma_encode_concat, lemma_hex8_value,
    lemma_hex_padded_digits, signed_decimal, two_digits,
};
use vstd::prelude::*;
use vstd::utf8::*;

verus! {

/// Number of bytes that a nonce adds to a record: a line feed and eight
/// digits.
pub const NONCE_SUFFIX_BYTES: u64 = 9;

/// Offsets from UTC, in seconds, whose hours take two digits lie between
/// minus and plus this number.
pub const UTC_OFFSET_LIMIT: i32 = 360_000;

/// The line that names the tree.
pub open spec fn tree_line(tree: Seq<char>) -> Seq<char> {
    "tree "@ + tree
}

/// The line that names the parent commit.
pub open spec fn parent_line(parent: Seq<char>) -> Seq<char> {
    "parent "@ + parent
}

/// Who did something, and when: the identity, a space, and the time.
pub open spec fn identity_text(author: Seq<char>, time: Seq<char>) -> Seq<char> {
    author + " "@ + time
}

/// The line that names the author and the time of writing.
pub open spec fn author_line(author: Seq<char>, time: Seq<char>) -> Seq<char> {
    "author "@ + identity_text(author, time)
}

/// The line that names the committer and the time of the commit. The
/// committer is the author, and the time is the same.
pub open spec fn committer_line(author: Seq<char>, time: Seq<char>) -> Seq<char> {
    "committer "@ + identity_text(author, time)
}

/// The lines of a record before its blank line.
pub open spec fn header_lines(
    tree: Seq<char>,
    parent: Option<Seq<char>>,
    author: Seq<char>,
    time: Seq<char>,
) -> Seq<Seq<char>> {
    match parent {
        Some(p) => seq![
            tree_line(tree),
            parent_line(p),
            author_line(author, time),
            committer_line(author, time),
        ],
        None => seq![tree_line(tree), author_line(author, time), committer_line(author, time)],
    }
}

/// The record of a commit without a parent.
pub open spec fn initial_blob_text(
    tree: Seq<char>,
    author: Seq<char>,
    time: Seq<char>,
    message: Seq<char>,
) -> Seq<char> {
    tree_line(tree) + "\n"@ + author_line(author, time) + "\n"@ + committer_line(author, time)
        + "\n\n"@ + message
}

/// The record of a commit with a parent.
pub open spec fn non_initial_blob_text(
    tree: Seq<char>,
    parent: Seq<char>,
    author: Seq<char>,
    time: Seq<char>,
    message: Seq<char>,
) -> Seq<char> {
    tree_line(tree) + "\n"@ + parent_line(parent) + "\n"@ + author_line(author, time) + "\n"@
        + committer_line(author, time) + "\n\n"@ + message
}

/// The record of a commit.
pub open spec fn blob_text(
    tree: Seq<char>,
    parent: Option<Seq<char>>,
    author: Seq<char>,
    time: Seq<char>,
    message: Seq<char>,
) -> Seq<char> {
    match parent {
        Some(p) => non_initial_blob_text(tree, p, author, time, message),
        None => initial_blob_text(tree, author, time, message),
    }
}

/// An identity as the record holds it: the name, then the address in angle
/// brackets.
pub open spec fn author_text(name: Seq<char>, email: Seq<char>) -> Seq<char> {
    name + " <"@ + email + ">"@
}

/// An offset from UTC of `offset` seconds: a sign, `-` unless the offset is
/// positive, then the hours and the minutes, each with two digits or, where
/// the hours need more, with as many as they need.
pub open spec fn zone_text(offset: int) -> Seq<char> {
    let minutes = (if offset < 0 {
        -offset
    } else {
        offset
    }) / 60;
    (if offset > 0 {
        "+"@
    } else {
        "-"@
    }) + two_digits((minutes / 60) as nat) + two_digits((minutes % 60) as nat)
}

/// A point in time as the record holds it: seconds since the epoch, a
/// space, and the offset from UTC.
pub open spec fn timestamp_text(seconds: int, offset: int) -> Seq<char> {
    signed_decimal(seconds) + " "@ + zone_text(offset)
}

/// A record with its nonce: the record, a line feed, and the nonce as eight
/// lowercase hexadecimal digits.
pub open spec fn candidate_text(blob: Seq<char>, nonce: u32) -> Seq<char> {
    blob + "\n"@ + hex8(nonce)
}

/// A record as it is hashed: the word `commit`, a space, the number of
/// bytes of the record in decimal, a NUL, and the record.
pub open spec fn headed_text(blob: Seq<char>) -> Seq<char> {
    "commit "@ + decimal(byte_len(blob)) + "\0"@ + blob
}

/// The line `line` begins with the word `word`.
pub open spec fn begins_with(line: Seq<char>, word: Seq<char>) -> bool {
    word.is_prefix_of(line)
}

/// Two line feeds are one line feed after another.
pub proof fn lemma_blank_line()
    ensures
        "\n\n"@ == "\n"@ + "\n"@,
{
    reveal_strlit("\n\n");
    reveal_strlit("\n");
    assert("\n\n"@ =~= "\n"@ + "\n"@);
}

/// A word and what follows it have no line feed in them where neither of
/// the two has one.
proof fn lemma_keyword_line(word: Seq<char>, value: Seq<char>)
    requires
        single_line(word),
        single_line(value),
    ensures
        single_line(word + value),
{
    let line = word + value;
    assert forall|i: int| 0 <= i < line.len() implies #[trigger] line[i] != '\n' by {
        if i < word.len() {
            assert(line[i] == word[i]);
        } else {
            assert(line[i] == value[i - word.len()]);
        }
    }
}

/// The words that begin the lines of a record have no line feed in them,
/// and none of them begins with another.
proof fn lemma_keywords()
    ensures
        single_line("tree "@),
        single_line("parent "@),
        single_line("author "@),
        single_line("committer "@),
        single_line(" "@),
        "tree "@[0] == 't' && "tree "@.len() == 5,
        "parent "@[0] == 'p' && "parent "@.len() == 7,
        "author "@[0] == 'a' && "author "@.len() == 7,
        "committer "@[0] == 'c' && "committer "@.len() == 10,
{
    reveal_strlit("tree ");
    reveal_strlit("parent ");
    reveal_strlit("author ");
    reveal_strlit("committer ");
    reveal_strlit(" ");
}

/// A record is its header lines with line feeds between them, two line
/// feeds, and the message.
proof fn lemma_record_is_header_and_message(
    tree: Seq<char>,
    parent: Option<Seq<char>>,
    author: Seq<char>,
    time: Seq<char>,
    message: Seq<char>,
)
    ensures
        blob_text(tree, parent, author, time, message) == unlines(
            header_lines(tree, parent, author, time),
        ) + seq!['\n', '\n'] + message,
{
    let header = header_lines(tree, parent, author, time);
    let feed = seq!['\n'];
    reveal_strlit("\n");
    reveal_strlit("\n\n");
    assert("\n"@ =~= feed);
    assert("\n\n"@ =~= seq!['\n', '\n']);
    reveal_with_fuel(unlines, 5);
    match parent {
        Some(p) => {
            assert(header.drop_last() =~= seq![
                tree_line(tree),
                parent_line(p),
                author_line(author, time),
            ]);
            assert(header.drop_last().drop_last() =~= seq![tree_line(tree), parent_line(p)]);
            assert(header.drop_last().drop_last().drop_last() =~= seq![tree_line(tree)]);
            assert(unlines(header) == tree_line(tree) + feed + parent_line(p) + feed + author_line(
                author,
                time,
            ) + feed + committer_line(author, time));
        },
        None => {
            assert(header.drop_last() =~= seq![tree_line(tree), author_line(author, time)]);
            assert(header.drop_last().drop_last() =~= seq![tree_line(tree)]);
            assert(unlines(header) == tree_line(tree) + feed + author_line(author, time) + feed
                + committer_line(author, time));
        },
    }
}

/// The header lines have no line feed in them where the tree, the parent,
/// the author and the time have none.
proof fn lemma_header_single_lines(
    tree: Seq<char>,
    parent: Option<Seq<char>>,
    author: Seq<char>,
    time: Seq<char>,
)
    requires
        single_line(tree),
        parent matches Some(p) ==> single_line(p),
        single_line(author),
        single_line(time),
    ensures
        forall|i: int|
            0 <= i < header_lines(tree, parent, author, time).len() ==> single_line(
                #[trigger] header_lines(tree, parent, author, time)[i],
            ),
{
    lemma_keywords();
    lemma_keyword_line(" "@, time);
    lemma_keyword_line(author, " "@ + time);
    assert(identity_text(author, time) =~= author + (" "@ + time));
    lemma_keyword_line("tree "@, tree);
    lemma_keyword_line("author "@, identity_text(author, time));
    lemma_keyword_line("committer "@, identity_text(author, time));
    if let Some(p) = parent {
        lemma_keyword_line("parent "@, p);
    }
}

/// The lines of a record. Where the tree, the parent, the author and the
/// time have no line feed in them, the record is made of its header lines:
/// the tree, the parent if there is one, the author and the committer, in
/// this order and each once; then of one empty line; then of the lines of
/// the message. The message is the end of the record: nothing follows it,
/// and the lines behind the empty line, put together, are the message.
pub proof fn lemma_record_lines(
    tree: Seq<char>,
    parent: Option<Seq<char>>,
    author: Seq<char>,
    time: Seq<char>,
    message: Seq<char>,
)
    requires
        single_line(tree),
        parent matches Some(p) ==> single_line(p),
        single_line(author),
        single_line(time),
    ensures
        lines(blob_text(tree, parent, author, time, message)) == header_lines(
            tree,
            parent,
            author,
            time,
        ).push(Seq::<char>::empty()) + lines(message),
        unlines(
            lines(blob_text(tree, parent, author, time, message)).skip(
                header_lines(tree, parent, author, time).len() as int + 1,
            ),
        ) == message,
        message.is_suffix_of(blob_text(tree, parent, author, time, message)),
{
    let record = blob_text(tree, parent, author, time, message);
    let header = header_lines(tree, parent, author, time);
    lemma_record_is_header_and_message(tree, parent, author, time, message);
    lemma_header_single_lines(tree, parent, author, time);
    lemma_lines_before_blank_line(header, message);
    let all = header.push(Seq::<char>::empty()) + lines(message);
    assert(all.skip(header.len() as int + 1) =~= lines(message));
    lemma_unlines_of_lines(message);
    assert(record.subrange(record.len() - message.len(), record.len() as int) =~= message);
}

/// A line that begins with a word begins with the first character of the
/// word.
proof fn lemma_begins_with_first(line: Seq<char>, word: Seq<char>)
    requires
        word.len() > 0,
        begins_with(line, word),
    ensures
        line.len() > 0,
        line[0] == word[0],
{
    assert(line.subrange(0, word.len() as int)[0] == word[0]);
}

/// A word and what follows it are a line that begins with the word.
proof fn lemma_begins_with_own_word(word: Seq<char>, value: Seq<char>)
    ensures
        begins_with(word + value, word),
        (word + value).skip(word.len() as int) == value,
{
    assert((word + value).subrange(0, word.len() as int) =~= word);
    assert((word + value).skip(word.len() as int) =~= value);
}

/// The header lines of a record, each told by the word it begins with:
/// exactly one header line begins with `tree`, exactly one with `author`
/// and exactly one with `committer`; exactly one begins with `parent` where
/// there is a parent, and none where there is none. No header line is
/// empty, and what follows the word is the same in the line of the author
/// and in the line of the committer.
pub proof fn lemma_header_lines(
    tree: Seq<char>,
    parent: Option<Seq<char>>,
    author: Seq<char>,
    time: Seq<char>,
)
    ensures
        header_lines(tree, parent, author, time).len() == (if parent is Some {
            4int
        } else {
            3int
        }),
        forall|i: int|
            0 <= i < header_lines(tree, parent, author, time).len() ==> (begins_with(
                #[trigger] header_lines(tree, parent, author, time)[i],
                "tree "@,
            ) <==> i == 0),
        forall|i: int|
            0 <= i < header_lines(tree, parent, author, time).len() ==> (begins_with(
                #[trigger] header_lines(tree, parent, author, time)[i],
                "parent "@,
            ) <==> parent is Some && i == 1),
        forall|i: int|
            0 <= i < header_lines(tree, parent, author, time).len() ==> (begins_with(
                #[trigger] header_lines(tree, parent, author, time)[i],
                "author "@,
            ) <==> i == header_lines(tree, parent, author, time).len() - 2),
        forall|i: int|
            0 <= i < header_lines(tree, parent, author, time).len() ==> (begins_with(
                #[trigger] header_lines(tree, parent, author, time)[i],
                "committer "@,
            ) <==> i == header_lines(tree, parent, author, time).len() - 1),
        forall|i: int|
            0 <= i < header_lines(tree, parent, author, time).len() ==> (
            #[trigger] header_lines(tree, parent, author, time)[i]).len() > 0,
        author_line(author, time).skip("author "@.len() as int) == committer_line(
            author,
            time,
        ).skip("committer "@.len() as int),
{
    let header = header_lines(tree, parent, author, time);
    let identity = identity_text(author, time);
    lemma_keywords();
    lemma_begins_with_own_word("tree "@, tree);
    lemma_begins_with_own_word("author "@, identity);
    lemma_begins_with_own_word("committer "@, identity);
    if let Some(p) = parent {
        lemma_begins_with_own_word("parent "@, p);
    }
    let tree_first = tree_line(tree)[0];
    let author_first = author_line(author, time)[0];
    let committer_first = committer_line(author, time)[0];
    assert(tree_first == 't' && author_first == 'a' && committer_first == 'c');
    assert(parent matches Some(p) ==> parent_line(p)[0] == 'p');
    assert forall|i: int| 0 <= i < header.len() implies (begins_with(
        #[trigger] header[i],
        "tree "@,
    ) <==> i == 0) by {
        if begins_with(header[i], "tree "@) {
            lemma_begins_with_first(header[i], "tree "@);
        }
    }
    assert forall|i: int| 0 <= i < header.len() implies (begins_with(
        #[trigger] header[i],
        "parent "@,
    ) <==> parent is Some && i == 1) by {
        if begins_with(header[i], "parent "@) {
            lemma_begins_with_first(header[i], "parent "@);
        }
    }
    assert forall|i: int| 0 <= i < header.len() implies (begins_with(
        #[trigger] header[i],
        "author "@,
    ) <==> i == header.len() - 2) by {
        if begins_with(header[i], "author "@) {
            lemma_begins_with_first(header[i], "author "@);
        }
    }
    assert forall|i: int| 0 <= i < header.len() implies (begins_with(
        #[trigger] header[i],
        "committer "@,
    ) <==> i == header.len() - 1) by {
        if begins_with(header[i], "committer "@) {
            lemma_begins_with_first(header[i], "committer "@);
        }
    }
}

/// A time as the record holds it has no line feed in it.
pub proof fn lemma_timestamp_single_line(seconds: int, offset: int)
    ensures
        single_line(timestamp_text(seconds, offset)),
{
    let minutes = (if offset < 0 {
        -offset
    } else {
        offset
    }) / 60;
    let magnitude = (if seconds < 0 {
        -seconds
    } else {
        seconds
    }) as nat;
    reveal_strlit("-");
    reveal_strlit("+");
    reveal_strlit(" ");
    reveal_strlit("0");
    lemma_decimal_digits(magnitude);
    lemma_decimal_digits((minutes / 60) as nat);
    lemma_decimal_digits((minutes % 60) as nat);
    let hours_text = two_digits((minutes / 60) as nat);
    let minutes_text = two_digits((minutes % 60) as nat);
    assert(single_line(signed_decimal(seconds)));
    assert(single_line(hours_text));
    assert(single_line(minutes_text));
    assert(single_line(zone_text(offset)));
}

/// The lines of a record that holds a time written by the library: the
/// time has no line feed in it, so the record has the lines of its header,
/// an empty line and the lines of the message wherever the tree, the parent
/// and the author have no line feed in them.
pub proof fn lemma_timed_record_lines(
    tree: Seq<char>,
    parent: Option<Seq<char>>,
    author: Seq<char>,
    seconds: int,
    offset: int,
    message: Seq<char>,
)
    requires
        single_line(tree),
        parent matches Some(p) ==> single_line(p),
        single_line(author),
    ensures
        lines(
            blob_text(tree, parent, author, timestamp_text(seconds, offset), message),
        ) == header_lines(tree, parent, author, timestamp_text(seconds, offset)).push(
            Seq::<char>::empty(),
        ) + lines(message),
{
    lemma_timestamp_single_line(seconds, offset);
    lemma_record_lines(tree, parent, author, timestamp_text(seconds, offset), message);
}

/// A number below a hundred, written with a leading zero where it is below
/// ten, is two decimal digits.
proof fn lemma_two_digits(n: nat)
    requires
        n < 100,
    ensures
        two_digits(n).len() == 2,
        is_decimal_digit(two_digits(n)[0]),
        is_decimal_digit(two_digits(n)[1]),
{
    reveal_strlit("0");
    lemma_decimal_digits(n);
    lemma_decimal_digits(n / 10);
    if n >= 10 {
        assert(decimal(n) == decimal(n / 10).push(crate::text::decimal_digits()[(n % 10) as int]));
        assert(decimal(n / 10).len() == 1);
    }
}

/// A time zone that is written with its hours in two digits is a sign and
/// four decimal digits.
pub proof fn lemma_zone_shape(offset: int)
    requires
        -UTC_OFFSET_LIMIT < offset < UTC_OFFSET_LIMIT,
    ensures
        zone_text(offset).len() == 5,
        zone_text(offset)[0] == (if offset > 0 {
            '+'
        } else {
            '-'
        }),
        forall|i: int| 1 <= i < 5 ==> is_decimal_digit(#[trigger] zone_text(offset)[i]),
{
    let minutes = (if offset < 0 {
        -offset
    } else {
        offset
    }) / 60;
    let hours = (minutes / 60) as nat;
    let rest = (minutes % 60) as nat;
    reveal_strlit("-");
    reveal_strlit("+");
    reveal_strlit("0");
    lemma_two_digits(hours);
    lemma_two_digits(rest);
    let zone = zone_text(offset);
    assert forall|i: int| 1 <= i < 5 implies is_decimal_digit(#[trigger] zone[i]) by {
        if i < 3 {
            assert(zone[i] == two_digits(hours)[i - 1]);
        } else {
            assert(zone[i] == two_digits(rest)[i - 3]);
        }
    }
}

/// What a nonce adds to a record: the record stays as it is, and behind it
/// come a line feed and eight lowercase hexadecimal digits, nine characters
/// in all.
pub proof fn lemma_candidate_shape(blob: Seq<char>, nonce: u32)
    ensures
        candidate_text(blob, nonce).len() == blob.len() + 9,
        blob.is_prefix_of(candidate_text(blob, nonce)),
        candidate_text(blob, nonce)[blob.len() as int] == '\n',
        candidate_text(blob, nonce).skip(blob.len() as int + 1) == hex8(nonce),
        hex8(nonce).len() == 8,
        all_lower_hex(hex8(nonce)),
{
    reveal_strlit("\n");
    lemma_hex_padded_digits(nonce as nat, 8);
    let candidate = candidate_text(blob, nonce);
    assert(candidate.subrange(0, blob.len() as int) =~= blob);
    assert(candidate.skip(blob.len() as int + 1) =~= hex8(nonce));
}

/// The nonce can be read back from the end of the record that holds it, so
/// two nonces never give the same record.
pub proof fn lemma_candidate_nonce(blob: Seq<char>, nonce: u32, other: u32)
    ensures
        hex_value(candidate_text(blob, nonce).skip(blob.len() as int + 1)) == nonce,
        candidate_text(blob, nonce) == candidate_text(blob, other) ==> nonce == other,
{
    lemma_candidate_shape(blob, nonce);
    lemma_candidate_shape(blob, other);
    lemma_hex8_value(nonce);
    lemma_hex8_value(other);
}

/// The digits of the smallest and of the largest nonce.
pub proof fn lemma_hex8_ends()
    ensures
        hex8(0) == "00000000"@,
        hex8(u32::MAX) == "ffffffff"@,
{
    reveal_strlit("00000000");
    reveal_strlit("ffffffff");
    reveal_strlit("0123456789abcdef");
    reveal_with_fuel(hex_padded, 9);
    assert(hex8(0) =~= "00000000"@);
    assert(hex8(u32::MAX) =~= "ffffffff"@);
}

/// A nonce adds nine bytes to a record.
pub proof fn lemma_candidate_byte_len(blob: Seq<char>, nonce: u32)
    ensures
        byte_len(candidate_text(blob, nonce)) == byte_len(blob) + NONCE_SUFFIX_BYTES,
{
    let digits = hex8(nonce);
    reveal_strlit("\n");
    lemma_hex_padded_digits(nonce as nat, 8);
    lemma_encode_concat(blob + "\n"@, digits);
    lemma_encode_concat(blob, "\n"@);
    lemma_ascii_byte_len("\n"@);
    assert(is_ascii_chars(digits)) by {
        assert forall|i: int| 0 <= i < digits.len() implies '\0' <= #[trigger] digits[i]
            <= '\u{7f}' by {
            assert(crate::text::is_lower_hex(digits[i]));
        }
    }
    lemma_ascii_byte_len(digits);
}

/// The header adds to a record its eight fixed bytes and the digits of the
/// record's length.
pub proof fn lemma_headed_byte_len(blob: Seq<char>)
    ensures
        byte_len(headed_text(blob)) == 8 + decimal(byte_len(blob)).len() + byte_len(blob),
{
    let digits = decimal(byte_len(blob));
    reveal_strlit("commit ");
    reveal_strlit("\0");
    lemma_decimal_digits(byte_len(blob));
    lemma_encode_concat("commit "@ + digits + "\0"@, blob);
    lemma_encode_concat("commit "@ + digits, "\0"@);
    lemma_encode_concat("commit "@, digits);
    lemma_ascii_byte_len("commit "@);
    lemma_ascii_byte_len(digits);
    lemma_ascii_byte_len("\0"@);
}

} // verus!

//! Re-encoding of age-plugin-yubikey identities in a file for this plugin.
use vstd::prelude::*;

use crate::lines::split_lines;
use crate::stanza::IdentityStub;
use crate::text::{chars_of, has_prefix, to_upper};

verus! {

/// `bech32::DecodeError`: why a text is no Bech32.
#[verifier::external_type_specification]
#[verifier::external_body]
pub struct ExDecodeError(bech32::DecodeError);

/// `bech32::EncodeError`: why some bytes cannot be written in Bech32.
#[verifier::external_type_specification]
#[verifier::external_body]
pub struct ExEncodeError(bech32::EncodeError);

/// Longest text that Bech32 allows.
pub const BECH32_LENGTH: usize = 1023;

/// The bytes that `bech32::decode` reads from a text, `None` where it refuses the text.
pub uninterp spec fn bech32_payload(text: Seq<char>) -> Option<Seq<u8>>;

/// The text that `bech32::encode` writes for some bytes after a human-readable part.
pub uninterp spec fn bech32_text(hrp: Seq<char>, data: Seq<u8>) -> Seq<char>;

/// The length of the text that Bech32 writes: the human-readable part, a separator, five bits
/// in each symbol and a checksum of six symbols.
pub open spec fn bech32_length(hrp: Seq<char>, data: Seq<u8>) -> nat {
    hrp.len() + 1 + (8 * data.len() + 4) / 5 + 6
}

/// Whether a character is a visible ASCII character.
pub open spec fn is_graphic(c: char) -> bool {
    '!' <= c && c <= '~'
}

/// Whether a text can be a human-readable part in upper case.
pub open spec fn is_upper_hrp(hrp: Seq<char>) -> bool {
    &&& 1 <= hrp.len() <= 83
    &&& forall|i: int| 0 <= i < hrp.len() ==> is_graphic(#[trigger] hrp[i])
    &&& crate::text::upper(hrp) == hrp
}

/// `bech32::decode`, of which only the bytes are kept. It accepts a text with a valid Bech32m
/// or Bech32 checksum. Such a text is no longer than 1023 characters, and each of them holds at
/// most five bits of the result.
#[verifier::external_body]
fn bech32_decode(text: &str) -> (r: Result<Vec<u8>, bech32::DecodeError>)
    ensures
        match r {
            Ok(data) => bech32_payload(text@) == Some(data@),
            Err(_) => bech32_payload(text@) is None,
        },
        r matches Ok(data) ==> text@.len() <= BECH32_LENGTH && 8 * data@.len() <= 5 * text@.len(),
{
    bech32::decode(text).map(|(_hrp, data)| data)
}

/// `bech32::encode` with the Bech32 checksum. It fails only where the text would be longer than
/// 1023 characters. The text is visible ASCII and begins with the human-readable part and
/// the separator, in lower case; in upper case, it decodes to the same bytes.
#[verifier::external_body]
fn bech32_encode(hrp: &str, data: &[u8]) -> (r: Result<String, bech32::EncodeError>)
    requires
        is_upper_hrp(hrp@),
        data@.len() <= BECH32_LENGTH,
    ensures
        r is Ok <==> bech32_length(hrp@, data@) <= BECH32_LENGTH,
        r matches Ok(s) ==> {
            &&& s@ == bech32_text(hrp@, data@)
            &&& s@.len() == bech32_length(hrp@, data@)
            &&& forall|i: int| 0 <= i < s@.len() ==> is_graphic(#[trigger] s@[i])
            &&& crate::text::starts_with(crate::text::upper(s@), hrp@.push('1'))
            &&& bech32_payload(crate::text::upper(s@)) == Some(data@)
        },
{
    let hrp = bech32::Hrp::parse(hrp).expect("a valid human-readable part");
    bech32::encode::<bech32::Bech32>(hrp, data)
}

/// Why identities could not be converted.
#[derive(Debug)]
pub enum ConvertError {
    /// A backup from before exists; the message says so.
    BackupExists(String),
    /// A line begins like an identity and is no Bech32.
    Decode(bech32::DecodeError),
    /// An identity is too long under the new prefix.
    Encode(bech32::EncodeError),
}

/// What stops the conversion of a line.
#[derive(Clone, Copy, Debug, PartialEq, Eq, Structural)]
pub enum LineFailure {
    Decode,
    Encode,
}

/// Whether a line is an identity of age-plugin-yubikey.
pub open spec fn is_old_identity(line: Seq<char>) -> bool {
    crate::text::starts_with(line, "AGE-PLUGIN-YUBIKEY-1"@)
}

/// Whether a line is an identity of this plugin.
pub open spec fn is_new_identity(line: Seq<char>) -> bool {
    crate::text::starts_with(line, "AGE-PLUGIN-YUBIKEY-AGENT-1"@)
}

/// What stands in place of a line: nothing else, unless it is an identity of
/// age-plugin-yubikey; then the same bytes under the new prefix, in upper case.
pub open spec fn replacement(line: Seq<char>) -> Result<Option<Seq<char>>, LineFailure> {
    if is_old_identity(line) {
        match bech32_payload(line) {
            None => Err(LineFailure::Decode),
            Some(data) => if bech32_length("AGE-PLUGIN-YUBIKEY-AGENT-"@, data) <= BECH32_LENGTH {
                Ok(
                    Some(
                        crate::text::upper(bech32_text("AGE-PLUGIN-YUBIKEY-AGENT-"@, data)),
                    ),
                )
            } else {
                Err(LineFailure::Encode)
            },
        }
    } else {
        Ok(None)
    }
}

/// What stands in place of each line. The first line that cannot be converted stops it.
pub open spec fn replacements(lines: Seq<Seq<char>>) -> Result<
    Seq<Option<Seq<char>>>,
    LineFailure,
>
    decreases lines.len(),
{
    if lines.len() == 0 {
        Ok(seq![])
    } else {
        match replacements(lines.drop_last()) {
            Err(f) => Err(f),
            Ok(before) => match replacement(lines.last()) {
                Err(f) => Err(f),
                Ok(r) => Ok(before.push(r)),
            },
        }
    }
}

/// The lines with the replacements made.
pub open spec fn with_replacements(
    lines: Seq<Seq<char>>,
    replacements: Seq<Option<Seq<char>>>,
) -> Seq<Seq<char>> {
    Seq::new(
        lines.len(),
        |i: int|
            match replacements[i] {
                Some(new) => new,
                None => lines[i],
            },
    )
}

/// Whether there is anything to replace.
pub open spec fn is_modified(replacements: Seq<Option<Seq<char>>>) -> bool {
    exists|i: int| 0 <= i < replacements.len() && (#[trigger] replacements[i]) is Some
}

/// The new content of a file with the given lines: none if nothing is replaced, else every
/// line, ended with a line feed.
pub open spec fn new_content(
    lines: Seq<Seq<char>>,
    replacements: Seq<Option<Seq<char>>>,
) -> Option<Seq<char>> {
    if is_modified(replacements) {
        Some(crate::lines::unlines(with_replacements(lines, replacements)))
    } else {
        None
    }
}

/// An optional string as a sequence of characters.
pub open spec fn option_view(s: Option<String>) -> Option<Seq<char>> {
    match s {
        Some(s) => Some(s@),
        None => None,
    }
}

/// Optional strings as sequences of characters.
pub open spec fn options_view(s: Seq<Option<String>>) -> Seq<Option<Seq<char>>> {
    s.map_values(|s: Option<String>| option_view(s))
}

/// What an error says of a line.
pub open spec fn failure_is(e: ConvertError, f: LineFailure) -> bool {
    match f {
        LineFailure::Decode => e is Decode,
        LineFailure::Encode => e is Encode,
    }
}

proof fn lemma_new_hrp()
    ensures
        is_upper_hrp("AGE-PLUGIN-YUBIKEY-AGENT-"@),
        "AGE-PLUGIN-YUBIKEY-AGENT-"@.push('1') == "AGE-PLUGIN-YUBIKEY-AGENT-1"@,
{
    reveal_strlit("AGE-PLUGIN-YUBIKEY-AGENT-");
    reveal_strlit("AGE-PLUGIN-YUBIKEY-AGENT-1");
    let hrp = "AGE-PLUGIN-YUBIKEY-AGENT-"@;
    assert(crate::text::upper(hrp) =~= hrp);
    assert(hrp.push('1') =~= "AGE-PLUGIN-YUBIKEY-AGENT-1"@);
}

proof fn lemma_new_is_not_old(line: Seq<char>)
    requires
        is_new_identity(line),
    ensures
        !is_old_identity(line),
{
    reveal_strlit("AGE-PLUGIN-YUBIKEY-1");
    reveal_strlit("AGE-PLUGIN-YUBIKEY-AGENT-1");
    let a = "AGE-PLUGIN-YUBIKEY-1"@;
    let b = "AGE-PLUGIN-YUBIKEY-AGENT-1"@;
    assert(line.take(b.len() as int)[19] == b[19]);
    if is_old_identity(line) {
        assert(line.take(a.len() as int)[19] == a[19]);
    }
}

/// Re-encodes a line that is an identity of age-plugin-yubikey for this plugin, preserving the
/// Bech32 payload. The new line is an identity of this plugin with the same bytes.
pub fn convert_line(line: &str) -> (r: Result<Option<String>, ConvertError>)
    ensures
        match r {
            Ok(new) => replacement(line@) == Ok::<_, LineFailure>(option_view(new)),
            Err(e) => replacement(line@) matches Err(f) && failure_is(e, f),
        },
        r matches Ok(Some(new)) ==> {
            &&& is_new_identity(new@)
            &&& bech32_payload(line@) is Some
            &&& bech32_payload(new@) == bech32_payload(line@)
            &&& forall|i: int| 0 <= i < new@.len() ==> is_graphic(#[trigger] new@[i])
        },
{
    let chars = chars_of(line);
    if !has_prefix(chars.as_slice(), "AGE-PLUGIN-YUBIKEY-1") {
        return Ok(None);
    }
    proof {
        lemma_new_hrp();
    }
    let data = match bech32_decode(line) {
        Ok(data) => data,
        Err(e) => return Err(ConvertError::Decode(e)),
    };
    match bech32_encode("AGE-PLUGIN-YUBIKEY-AGENT-", data.as_slice()) {
        Ok(text) => {
            let new = to_upper(text.as_str());
            assert forall|i: int| 0 <= i < new@.len() implies is_graphic(#[trigger] new@[i]) by {
                assert(is_graphic(text@[i]));
            }
            Ok(Some(new))
        },
        Err(e) => Err(ConvertError::Encode(e)),
    }
}

/// Writes the lines of a file anew, with the replacements made, if there are any.
pub fn assemble(lines: &Vec<String>, replaced: &Vec<Option<String>>) -> (r: Option<String>)
    requires
        lines@.len() == replaced@.len(),
    ensures
        option_view(r) == new_content(
            crate::lines::strings_view(lines@),
            options_view(replaced@),
        ),
{
    let ghost ls = crate::lines::strings_view(lines@);
    let ghost rs = options_view(replaced@);
    let ghost all = with_replacements(ls, rs);
    let mut content = String::new();
    let mut modified = false;
    let mut i: usize = 0;
    assert(crate::lines::unlines(all.take(0)) =~= seq![]);
    while i < lines.len()
        invariant
            i <= lines@.len() == replaced@.len(),
            ls == crate::lines::strings_view(lines@),
            rs == options_view(replaced@),
            all == with_replacements(ls, rs),
            content@ == crate::lines::unlines(all.take(i as int)),
            modified <==> exists|k: int| 0 <= k < i && (#[trigger] rs[k]) is Some,
        decreases lines@.len() - i,
    {
        let ghost before = content@;
        assert(rs[i as int] == option_view(replaced@[i as int]));
        match &replaced[i] {
            Some(new) => {
                content.append(new.as_str());
                modified = true;
                assert(rs[i as int] is Some);
            },
            None => {
                content.append(lines[i].as_str());
            },
        }
        content.push('\n');
        proof {
            assert(all.take(i + 1).drop_last() =~= all.take(i as int));
            assert(content@ =~= before + all[i as int].push('\n'));
        }
        i += 1;
    }
    assert(all.take(i as int) =~= all);
    if modified {
        Some(content)
    } else {
        None
    }
}

/// What a converted file holds in place of each line: an identity of this plugin with the same
/// bytes in place of one of age-plugin-yubikey, and any other line itself.
pub open spec fn converts_to(old_line: Seq<char>, new_line: Seq<char>) -> bool {
    if is_old_identity(old_line) {
        &&& is_new_identity(new_line)
        &&& bech32_payload(old_line) is Some
        &&& bech32_payload(new_line) == bech32_payload(old_line)
    } else {
        new_line == crate::lines::without_cr(old_line)
    }
}

proof fn lemma_replacements(lines: Seq<Seq<char>>)
    ensures
        replacements(lines) matches Ok(rs) ==> {
            &&& rs.len() == lines.len()
            &&& forall|i: int|
                0 <= i < lines.len() ==> replacement(#[trigger] lines[i]) == Ok::<_, LineFailure>(
                    rs[i],
                )
        },
    decreases lines.len(),
{
    if lines.len() > 0 {
        lemma_replacements(lines.drop_last());
        if let Ok(rs) = replacements(lines) {
            assert forall|i: int| 0 <= i < lines.len() implies replacement(#[trigger] lines[i])
                == Ok::<_, LineFailure>(rs[i]) by {
                if i < lines.len() - 1 {
                    assert(lines.drop_last()[i] == lines[i]);
                }
            }
        }
    }
}

proof fn lemma_replacements_failure(lines: Seq<Seq<char>>, n: int)
    requires
        0 <= n <= lines.len(),
        replacements(lines.take(n)) is Err,
    ensures
        replacements(lines) == replacements(lines.take(n)),
    decreases lines.len() - n,
{
    if n < lines.len() {
        assert(lines.take(n + 1).drop_last() =~= lines.take(n));
        lemma_replacements_failure(lines, n + 1);
    } else {
        assert(lines.take(n) =~= lines);
    }
}

proof fn lemma_prefix_without_cr(line: Seq<char>)
    requires
        is_old_identity(crate::lines::without_cr(line)),
    ensures
        is_old_identity(line),
{
    let p = "AGE-PLUGIN-YUBIKEY-1"@;
    let short = crate::lines::without_cr(line);
    assert(line.take(p.len() as int) =~= short.take(p.len() as int));
}

/// Whether `r` is what converting the content of a file gives.
pub open spec fn is_conversion_of(
    content: Seq<char>,
    r: Result<Option<String>, ConvertError>,
) -> bool {
    match r {
        Ok(new) => replacements(crate::lines::lines(content)) matches Ok(rs) && option_view(new)
            == new_content(crate::lines::lines(content), rs),
        Err(e) => replacements(crate::lines::lines(content)) matches Err(f) && failure_is(e, f),
    }
}

/// Re-encodes the `AGE-PLUGIN-YUBIKEY-1` identities in the content of a file to
/// `AGE-PLUGIN-YUBIKEY-AGENT-`, preserving the Bech32 payload. Gives nothing if there are none.
/// The lines of the new content are those of the old, each converted, and none of them is left
/// to convert.
pub fn convert_identities(content: &str) -> (r: Result<Option<String>, ConvertError>)
    ensures
        is_conversion_of(content@, r),
        r matches Ok(Some(new)) ==> {
            let old_lines = crate::lines::lines(content@);
            let new_lines = crate::lines::lines(new@);
            &&& new_lines.len() == old_lines.len()
            &&& forall|i: int|
                #![trigger new_lines[i]]
                0 <= i < new_lines.len() ==> converts_to(old_lines[i], new_lines[i])
                    && !is_old_identity(new_lines[i])
        },
{
    let lines = split_lines(content);
    let ghost ls = crate::lines::lines(content@);
    let mut replaced: Vec<Option<String>> = Vec::new();
    let mut i: usize = 0;
    assert(options_view(replaced@) =~= seq![]);
    while i < lines.len()
        invariant
            i <= lines@.len(),
            ls == crate::lines::lines(content@),
            ls == crate::lines::strings_view(lines@),
            replaced@.len() == i,
            replacements(ls.take(i as int)) == Ok::<_, LineFailure>(options_view(replaced@)),
            forall|k: int|
                0 <= k < i ==> ((#[trigger] replaced@[k]) matches Some(new) ==> {
                    &&& is_new_identity(new@)
                    &&& bech32_payload(ls[k]) is Some
                    &&& bech32_payload(new@) == bech32_payload(ls[k])
                    &&& forall|j: int| 0 <= j < new@.len() ==> is_graphic(#[trigger] new@[j])
                }),
        decreases lines@.len() - i,
    {
        assert(ls.take(i + 1).drop_last() =~= ls.take(i as int));
        assert(ls[i as int] == lines@[i as int]@);
        match convert_line(lines[i].as_str()) {
            Ok(new) => {
                let ghost before = replaced@;
                replaced.push(new);
                assert(options_view(replaced@) =~= options_view(before).push(option_view(new)));
            },
            Err(e) => {
                proof {
                    lemma_replacements_failure(ls, i + 1);
                }
                return Err(e);
            },
        }
        i += 1;
    }
    assert(ls.take(ls.len() as int) =~= ls);
    let r = assemble(&lines, &replaced);
    proof {
        let rs = options_view(replaced@);
        lemma_replacements(ls);
        if r is Some {
            let new = r->0;
            let all = with_replacements(ls, rs);
            crate::lines::law_lines_are_lines(content@);
            assert forall|k: int| 0 <= k < all.len() implies crate::lines::is_one_line(
                #[trigger] all[k],
            ) by {
                assert(rs[k] == option_view(replaced@[k]));
                assert(crate::lines::is_one_line(ls[k]));
                if let Some(new_line) = replaced@[k] {
                    assert forall|j: int| 0 <= j < new_line@.len() implies new_line@[j]
                        != '\n' by {
                        assert(is_graphic(new_line@[j]));
                    }
                }
            }
            crate::lines::law_lines_of_unlines(all);
            let new_lines = crate::lines::lines(new@);
            assert forall|k: int|
                #![trigger new_lines[k]]
                0 <= k < new_lines.len() implies converts_to(ls[k], new_lines[k])
                && !is_old_identity(new_lines[k]) by {
                assert(rs[k] == option_view(replaced@[k]));
                assert(new_lines[k] == crate::lines::without_cr(all[k]));
                assert(replacement(ls[k]) == Ok::<_, LineFailure>(rs[k]));
                match replaced@[k] {
                    Some(new_line) => {
                        if new_line@.len() > 0 {
                            assert(is_graphic(new_line@[new_line@.len() - 1]));
                        }
                        assert(new_lines[k] == new_line@);
                        lemma_new_is_not_old(new_line@);
                    },
                    None => {
                        if is_old_identity(new_lines[k]) {
                            lemma_prefix_without_cr(ls[k]);
                        }
                    },
                }
            }
        }
    }
    Ok(r)
}

/// A converted identity is the same identity: the stub that its bytes begin with is the one that
/// the bytes of the line it stands for begin with.
pub proof fn law_converted_identity_is_the_same(
    old_line: Seq<char>,
    new_line: Seq<char>,
    old_stub: IdentityStub,
    new_stub: IdentityStub,
    old_rest: Seq<u8>,
    new_rest: Seq<u8>,
)
    requires
        is_old_identity(old_line),
        converts_to(old_line, new_line),
        bech32_payload(old_line) == Some(old_stub@ + old_rest),
        bech32_payload(new_line) == Some(new_stub@ + new_rest),
    ensures
        new_stub == old_stub,
        new_rest == old_rest,
{
    crate::stanza::law_stub_prefix_unique(new_stub, old_stub, new_rest, old_rest);
}

/// The plugin takes up the identities that conversion writes: age hands the bytes of a converted
/// identity over under the name that its prefix spells, which is this plugin's, so one that
/// holds a stub is accepted.
pub proof fn law_converted_identity_is_accepted(
    old_line: Seq<char>,
    new_line: Seq<char>,
    name: Seq<char>,
    bytes: Seq<u8>,
)
    requires
        is_old_identity(old_line),
        converts_to(old_line, new_line),
        bech32_payload(new_line) == Some(bytes),
        crate::plugin::has_no_upper(name),
        crate::plugin::identity_hrp(name) == "AGE-PLUGIN-YUBIKEY-AGENT-"@,
    ensures
        crate::text::starts_with(new_line, crate::plugin::identity_hrp(name).push('1')),
        bech32_payload(old_line) == Some(bytes),
        crate::plugin::is_acceptable(name, bytes) <==> bytes.len() >= crate::stanza::STUB_BYTES,
{
    crate::plugin::law_prefix_names_the_plugin(name);
    lemma_new_hrp();
}

/// A file without identities of age-plugin-yubikey has nothing to convert. A converted file is
/// such a file, so converting it again finds nothing.
pub proof fn law_nothing_left_to_convert(lines: Seq<Seq<char>>)
    requires
        forall|i: int| 0 <= i < lines.len() ==> !is_old_identity(#[trigger] lines[i]),
    ensures
        replacements(lines) matches Ok(rs) && new_content(lines, rs) is None,
    decreases lines.len(),
{
    if lines.len() > 0 {
        let before = lines.drop_last();
        assert forall|i: int| 0 <= i < before.len() implies !is_old_identity(
            #[trigger] before[i],
        ) by {
            assert(before[i] == lines[i]);
        }
        law_nothing_left_to_convert(before);
        assert(!is_old_identity(lines[lines.len() - 1]));
        lemma_replacements(before);
        let rs = replacements(lines)->Ok_0;
        let bs = replacements(before)->Ok_0;
        assert forall|i: int| 0 <= i < rs.len() implies (#[trigger] rs[i]) is None by {
            if i < bs.len() {
                assert(rs[i] == bs[i]);
                assert(bs[i] is None);
            }
        }
    }
}

/// A line that does not begin with `AGE-PLUGIN-YUBIKEY-1` stays. One that does is replaced by its
/// bytes under the new prefix, in upper case, if it decodes and 1023 characters hold the new
/// text; else it cannot be converted, for the one reason or the other.
pub proof fn law_which_lines_are_replaced(line: Seq<char>, data: Seq<u8>)
    ensures
        !crate::text::starts_with(line, "AGE-PLUGIN-YUBIKEY-1"@) <==> replacement(line)
            == Ok::<Option<Seq<char>>, LineFailure>(None),
        crate::text::starts_with(line, "AGE-PLUGIN-YUBIKEY-1"@) && bech32_payload(line) is None
            <==> replacement(line) == Err::<Option<Seq<char>>, _>(LineFailure::Decode),
        crate::text::starts_with(line, "AGE-PLUGIN-YUBIKEY-1"@) && bech32_payload(line) == Some(data)
            ==> {
            &&& 32 + (8 * data.len() + 4) / 5 <= 1023 ==> replacement(line) == Ok::<_, LineFailure>(
                Some(crate::text::upper(bech32_text("AGE-PLUGIN-YUBIKEY-AGENT-"@, data))),
            )
            &&& 32 + (8 * data.len() + 4) / 5 > 1023 ==> replacement(line) == Err::<
                Option<Seq<char>>,
                _,
            >(LineFailure::Encode)
        },
{
    reveal_strlit("AGE-PLUGIN-YUBIKEY-AGENT-");
}

/// Lines put together give nothing exactly if none of them is replaced, wherever it stands. Else
/// they give every line, in its place and ended with a line feed: the replacement where there is
/// one, the line itself elsewhere.
pub proof fn law_replaced_lines_are_written(
    lines: Seq<Seq<char>>,
    replaced: Seq<Option<Seq<char>>>,
    written: Seq<Seq<char>>,
)
    requires
        lines.len() == replaced.len() == written.len(),
        forall|i: int|
            0 <= i < lines.len() ==> #[trigger] written[i] == (match replaced[i] {
                Some(new) => new,
                None => lines[i],
            }),
    ensures
        new_content(lines, replaced) is None <==> forall|i: int|
            0 <= i < lines.len() ==> (#[trigger] replaced[i]) is None,
        new_content(lines, replaced) is Some ==> new_content(lines, replaced) == Some(
            crate::lines::unlines(written),
        ),
{
    assert(with_replacements(lines, replaced) =~= written);
}

/// Why a line cannot be converted, if it cannot.
pub open spec fn is_stuck(line: Seq<char>) -> bool {
    &&& crate::text::starts_with(line, "AGE-PLUGIN-YUBIKEY-1"@)
    &&& bech32_payload(line) matches Some(data) ==> 32 + (8 * data.len() + 4) / 5 > 1023
}

/// Converting a file fails exactly if some line that begins with `AGE-PLUGIN-YUBIKEY-1` does not
/// decode or is too long under the new prefix, and the first such line gives the reason. If none
/// does, the answer is `None` exactly if no line begins so: content with an identity of
/// age-plugin-yubikey anywhere is converted.
pub proof fn law_an_identity_anywhere_is_converted(
    content: Seq<char>,
    r: Result<Option<String>, ConvertError>,
)
    requires
        is_conversion_of(content, r),
    ensures
        r is Err <==> exists|i: int|
            0 <= i < crate::lines::lines(content).len() && is_stuck(
                #[trigger] crate::lines::lines(content)[i],
            ),
        r matches Err(e) ==> exists|i: int|
            0 <= i < crate::lines::lines(content).len() && is_stuck(
                #[trigger] crate::lines::lines(content)[i],
            ) && (if bech32_payload(crate::lines::lines(content)[i]) is None {
                e is Decode
            } else {
                e is Encode
            }) && forall|j: int|
                0 <= j < i ==> !is_stuck(#[trigger] crate::lines::lines(content)[j]),
        r matches Ok(new) ==> (new is None <==> forall|i: int|
            0 <= i < crate::lines::lines(content).len() ==> !crate::text::starts_with(
                #[trigger] crate::lines::lines(content)[i],
                "AGE-PLUGIN-YUBIKEY-1"@,
            )),
{
    let ls = crate::lines::lines(content);
    reveal_strlit("AGE-PLUGIN-YUBIKEY-AGENT-");
    lemma_replacements(ls);
    if let Err(f) = replacements(ls) {
        let i = lemma_first_failure(ls);
        assert(is_stuck(ls[i]));
        assert forall|j: int| 0 <= j < i implies !is_stuck(#[trigger] ls[j]) by {
            assert(replacement(ls[j]) is Ok);
        }
    } else {
        let rs = replacements(ls)->Ok_0;
        assert forall|i: int| 0 <= i < ls.len() implies !is_stuck(#[trigger] ls[i]) by {
            assert(replacement(ls[i]) == Ok::<_, LineFailure>(rs[i]));
        }
        assert forall|i: int| 0 <= i < ls.len() implies ((#[trigger] rs[i]) is Some
            <==> crate::text::starts_with(ls[i], "AGE-PLUGIN-YUBIKEY-1"@)) by {
            assert(replacement(ls[i]) == Ok::<_, LineFailure>(rs[i]));
        }
        if !is_modified(rs) {
            assert forall|i: int| 0 <= i < ls.len() implies !crate::text::starts_with(
                #[trigger] ls[i],
                "AGE-PLUGIN-YUBIKEY-1"@,
            ) by {
                assert(rs[i] is None);
            }
        }
    }
}

proof fn lemma_first_failure(lines: Seq<Seq<char>>) -> (i: int)
    requires
        replacements(lines) is Err,
    ensures
        0 <= i < lines.len(),
        replacement(lines[i]) == Err::<Option<Seq<char>>, _>(replacements(lines)->Err_0),
        forall|j: int| 0 <= j < i ==> replacement(#[trigger] lines[j]) is Ok,
    decreases lines.len(),
{
    let before = lines.drop_last();
    if replacements(before) is Err {
        let i = lemma_first_failure(before);
        assert forall|j: int| 0 <= j < i implies replacement(#[trigger] lines[j]) is Ok by {
            assert(before[j] == lines[j]);
        }
        i
    } else {
        lemma_replacements(before);
        assert forall|j: int| 0 <= j < lines.len() - 1 implies replacement(
            #[trigger] lines[j],
        ) is Ok by {
            assert(before[j] == lines[j]);
        }
        lines.len() - 1
    }
}

/// A converted file has the lines of the old one, in their places: each that begins with
/// `AGE-PLUGIN-YUBIKEY-1` as its bytes under the new prefix, each other as it was, all ended with
/// a line feed.
pub proof fn law_converted_file_line_by_line(
    content: Seq<char>,
    new: String,
    written: Seq<Seq<char>>,
)
    requires
        is_conversion_of(content, Ok(Some(new))),
        written.len() == crate::lines::lines(content).len(),
        forall|i: int|
            0 <= i < written.len() ==> #[trigger] written[i] == ({
                let line = crate::lines::lines(content)[i];
                if crate::text::starts_with(line, "AGE-PLUGIN-YUBIKEY-1"@) {
                    crate::text::upper(
                        bech32_text("AGE-PLUGIN-YUBIKEY-AGENT-"@, bech32_payload(line)->0),
                    )
                } else {
                    line
                }
            }),
    ensures
        new@ == crate::lines::unlines(written),
{
    let ls = crate::lines::lines(content);
    let rs = replacements(ls)->Ok_0;
    lemma_replacements(ls);
    assert forall|i: int| 0 <= i < ls.len() implies with_replacements(ls, rs)[i]
        == written[i] by {
        assert(replacement(ls[i]) == Ok::<_, LineFailure>(rs[i]));
    }
    assert(with_replacements(ls, rs) =~= written);
}

/// The view of replacements has each in its place: the characters of a string, and nothing for
/// none.
pub proof fn law_replacements_in_place(s: Seq<Option<String>>, i: int)
    requires
        0 <= i < s.len(),
    ensures
        options_view(s).len() == s.len(),
        s[i] matches Some(text) ==> options_view(s)[i] == Some(text@) && option_view(s[i]) == Some(
            text@,
        ),
        s[i] is None ==> options_view(s)[i] is None && option_view(s[i]) is None,
{
}

} // verus!

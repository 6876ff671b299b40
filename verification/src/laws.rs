//! What holds between writing and reading: a descriptor that its text
//! stands for is read back from that text, and a text cut short within a
//! field fails at that field.

use crate::app_build::DefaultUserAgentAppBuild;
use crate::error::{Field, ParseErrorView};
use crate::grammar::{
    is_field_text, alamofire_version_at, app_build_at, app_version_at, bundle_at, executable_at, fixed,
    os_name_at, os_version_at, parse_spec, text_field, version_of, version_or_unknown,
    DefaultUserAgentView,
};
use crate::os_name::DefaultUserAgentOsName;
use crate::scan::{
    count_of, lemma_count_bounds, lemma_first_index, lemma_first_index_is, lemma_first_index_none,
};
use crate::text::{
    absent_if_unknown, lemma_count_encoded, lemma_encode_concat, lemma_free, lemma_unknown,
    text_or_unknown, unknown, NEWLINE,
};
use crate::version::{lemma_version_text, VersionView};
use vstd::prelude::*;
use vstd::utf8::*;

verus! {

/// The encoding of one ASCII character is its byte.
proof fn lemma_encode_ascii(c: char)
    requires
        (c as u32) < 0x80,
    ensures
        encode_utf8(seq![c]) == seq![c as u8],
{
    let one = seq![c];
    assert(is_ascii_chars(one));
    is_ascii_chars_encode_utf8(one);
    assert(one[0] as u8 == encode_utf8(one)[0]);
    assert(encode_utf8(one) =~= seq![c as u8]);
}

/// A text that is free of an ASCII character has an encoding that is free
/// of its byte.
proof fn lemma_free_of(text: Seq<char>, c: char)
    requires
        (c as u32) < 0x80,
        count_of(text, c) == 0,
    ensures
        forall|i: int| 0 <= i < encode_utf8(text).len() ==> encode_utf8(text)[i] != c as u8,
{
    lemma_count_encoded(text, c);
    lemma_count_bounds(encode_utf8(text), c as u8);
}

/// A field whose text and delimiter stand at `pos` is read as that text,
/// and the reading goes on after the delimiter.
proof fn lemma_text_field(
    bytes: Seq<u8>,
    pos: int,
    text: Seq<char>,
    delim: char,
    tail: Seq<char>,
    field: Field,
) -> (next: int)
    requires
        0 <= pos <= bytes.len(),
        bytes.skip(pos) == encode_utf8(text + seq![delim] + tail),
        (delim as u32) < 0x80,
        count_of(text, delim) == 0,
    ensures
        pos < next <= bytes.len(),
        text_field(bytes, pos, delim as u8, field) == Ok::<(Seq<char>, int), ParseErrorView>(
            (text, next),
        ),
        bytes.skip(next) == encode_utf8(tail),
{
    let e = encode_utf8(text);
    let d = delim as u8;
    let end = pos + e.len();
    lemma_encode_concat(text + seq![delim], tail);
    lemma_encode_concat(text, seq![delim]);
    lemma_encode_ascii(delim);
    lemma_free_of(text, delim);
    let rest = bytes.skip(pos);
    assert(rest == e + seq![d] + encode_utf8(tail));
    assert(rest.len() == bytes.len() - pos);
    assert(rest.len() == e.len() + 1 + encode_utf8(tail).len());
    assert(bytes[end] == rest[e.len() as int]);
    assert forall|i: int| pos <= i < end implies bytes[i] != d by {
        assert(bytes[i] == rest[i - pos]);
        assert(rest[i - pos] == e[i - pos]);
    }
    lemma_first_index_is(bytes, pos, d, end);
    assert(bytes.subrange(pos, end) =~= e) by {
        assert forall|i: int| 0 <= i < e.len() implies bytes.subrange(pos, end)[i] == e[i] by {
            assert(bytes[pos + i] == rest[i]);
        }
    }
    encode_utf8_valid_utf8(text);
    encode_utf8_decode_utf8(text);
    assert(bytes.skip(end + 1) =~= encode_utf8(tail)) by {
        assert forall|i: int| 0 <= i < encode_utf8(tail).len() implies bytes.skip(end + 1)[i]
            == encode_utf8(tail)[i] by {
            assert(bytes[end + 1 + i] == rest[e.len() + 1 + i]);
        }
    }
    end + 1
}

/// A field whose text ends the input, with no delimiter, fails to be read.
proof fn lemma_text_field_cut(bytes: Seq<u8>, pos: int, text: Seq<char>, delim: char, field: Field)
    requires
        0 <= pos <= bytes.len(),
        bytes.skip(pos) == encode_utf8(text),
        (delim as u32) < 0x80,
        count_of(text, delim) == 0,
    ensures
        text_field(bytes, pos, delim as u8, field) == Err::<(Seq<char>, int), ParseErrorView>(
            ParseErrorView::read(field, "Invalid"@),
        ),
{
    lemma_free_of(text, delim);
    assert forall|i: int| pos <= i < bytes.len() implies bytes[i] != delim as u8 by {
        assert(bytes[i] == bytes.skip(pos)[i - pos]);
    }
    lemma_first_index_none(bytes, pos, delim as u8);
}

/// A fixed part that stands at `pos` is passed.
proof fn lemma_fixed<T>(
    bytes: Seq<u8>,
    value: T,
    pos: int,
    part: Seq<char>,
    tail: Seq<char>,
    message: Seq<char>,
) -> (next: int)
    requires
        0 <= pos <= bytes.len(),
        bytes.skip(pos) == encode_utf8(part + tail),
    ensures
        pos <= next <= bytes.len(),
        fixed(bytes, value, pos, part, message) == Ok::<(T, int), ParseErrorView>((value, next)),
        bytes.skip(next) == encode_utf8(tail),
{
    let e = encode_utf8(part);
    let end = pos + e.len();
    lemma_encode_concat(part, tail);
    let rest = bytes.skip(pos);
    assert(rest.len() == bytes.len() - pos);
    assert(rest.len() == e.len() + encode_utf8(tail).len());
    assert(bytes.subrange(pos, end) =~= e) by {
        assert forall|i: int| 0 <= i < e.len() implies bytes.subrange(pos, end)[i] == e[i] by {
            assert(bytes[pos + i] == rest[i]);
        }
    }
    assert(bytes.skip(end) =~= encode_utf8(tail)) by {
        assert forall|i: int| 0 <= i < encode_utf8(tail).len() implies bytes.skip(end)[i]
            == encode_utf8(tail)[i] by {
            assert(bytes[end + i] == rest[e.len() + i]);
        }
    }
    end
}

/// The text of the executable is free of `/` and gives the executable back.
proof fn lemma_executable_text(agent: DefaultUserAgentView)
    requires
        agent.is_canonical(),
    ensures
        count_of(text_or_unknown(agent.executable), '/') == 0,
        absent_if_unknown(text_or_unknown(agent.executable)) == agent.executable,
{
    lemma_unknown();
    lemma_free(unknown(), '/');
}

/// The text of the bundle is free of `;` and gives the bundle back.
proof fn lemma_bundle_text(agent: DefaultUserAgentView)
    requires
        agent.is_canonical(),
    ensures
        count_of(text_or_unknown(agent.bundle), ';') == 0,
        absent_if_unknown(text_or_unknown(agent.bundle)) == agent.bundle,
{
    lemma_unknown();
    lemma_free(unknown(), ';');
}

/// The text of a canonical version is free of the delimiters of the
/// grammar, is not the sentinel, and gives the version back.
proof fn lemma_canonical_text(version: VersionView, field: Field)
    requires
        version.is_canonical(),
    ensures
        count_of(version.text(), ' ') == 0,
        count_of(version.text(), ')') == 0,
        count_of(version.text(), '\n') == 0,
        version.text() != unknown(),
        version_of(version.text(), field) == Ok::<VersionView, ParseErrorView>(version),
{
    lemma_unknown();
    lemma_version_text(version);
    lemma_free(version.text(), ' ');
    lemma_free(version.text(), ')');
    lemma_free(version.text(), '\n');
}

/// The text of the application's version is free of spaces and gives the
/// version back.
proof fn lemma_app_version_text(agent: DefaultUserAgentView)
    requires
        agent.is_canonical(),
    ensures
        count_of(version_or_unknown(agent.app_version), ' ') == 0,
        version_or_unknown(agent.app_version) == unknown() <==> agent.app_version is None,
        agent.app_version matches Some(version) ==> version_of(version.text(), Field::AppVersion)
            == Ok::<VersionView, ParseErrorView>(version),
{
    lemma_unknown();
    lemma_free(unknown(), ' ');
    if let Some(version) = agent.app_version {
        lemma_canonical_text(version, Field::AppVersion);
    }
}

/// The text of the build number is free of `;` and gives the build number
/// back.
proof fn lemma_app_build_text(agent: DefaultUserAgentView)
    requires
        agent.is_canonical(),
    ensures
        count_of(DefaultUserAgentAppBuild::text_or_unknown(agent.app_build), ';') == 0,
        DefaultUserAgentAppBuild::parse_spec(
            DefaultUserAgentAppBuild::text_or_unknown(agent.app_build),
        ) == Ok::<Option<VersionView>, Seq<char>>(agent.app_build),
{
    lemma_unknown();
    lemma_free(unknown(), ';');
    if let Some(build) = agent.app_build {
        DefaultUserAgentAppBuild::lemma_text(build);
        DefaultUserAgentAppBuild::lemma_parse_text(build);
        lemma_free(DefaultUserAgentAppBuild::text(build), ';');
    }
}

/// The text of the operating system is free of spaces and gives the
/// operating system back.
proof fn lemma_os_name_text(agent: DefaultUserAgentView)
    ensures
        count_of(DefaultUserAgentOsName::text_or_unknown(agent.os_name), ' ') == 0,
        DefaultUserAgentOsName::parse_spec(
            DefaultUserAgentOsName::text_or_unknown(agent.os_name),
        ) == Ok::<Option<DefaultUserAgentOsName>, Seq<char>>(agent.os_name),
{
    lemma_unknown();
    lemma_free(unknown(), ' ');
    DefaultUserAgentOsName::lemma_parse_closed(unknown());
    if let Some(name) = agent.os_name {
        DefaultUserAgentOsName::lemma_texts(name, name);
        DefaultUserAgentOsName::lemma_parse_text(name);
        lemma_free(name.text(), ' ');
    }
}

/// The executable is read where its text and `/` stand.
proof fn lemma_executable(bytes: Seq<u8>, pos: int, agent: DefaultUserAgentView, tail: Seq<char>)
    -> (next: int)
    requires
        agent.is_canonical(),
        0 <= pos <= bytes.len(),
        bytes.skip(pos) == encode_utf8(text_or_unknown(agent.executable) + "/"@ + tail),
    ensures
        pos <= next <= bytes.len(),
        executable_at(bytes, pos) == Ok::<(Option<Seq<char>>, int), ParseErrorView>(
            (agent.executable, next),
        ),
        bytes.skip(next) == encode_utf8(tail),
{
    reveal_strlit("/");
    let text = text_or_unknown(agent.executable);
    lemma_executable_text(agent);
    assert(text + "/"@ + tail =~= text + seq!['/'] + tail);
    lemma_text_field(bytes, pos, text, '/', tail, Field::Executable)
}

/// The application's version is read where its text and ` (` stand.
proof fn lemma_app_version(bytes: Seq<u8>, pos: int, agent: DefaultUserAgentView, tail: Seq<char>)
    -> (next: int)
    requires
        agent.is_canonical(),
        0 <= pos <= bytes.len(),
        bytes.skip(pos) == encode_utf8(version_or_unknown(agent.app_version) + " ("@ + tail),
    ensures
        pos <= next <= bytes.len(),
        app_version_at(bytes, pos) == Ok::<(Option<VersionView>, int), ParseErrorView>(
            (agent.app_version, next),
        ),
        bytes.skip(next) == encode_utf8(tail),
{
    reveal_strlit(" (");
    reveal_strlit("(");
    let text = version_or_unknown(agent.app_version);
    lemma_app_version_text(agent);
    assert(text + " ("@ + tail =~= text + seq![' '] + ("("@ + tail));
    let mid = lemma_text_field(bytes, pos, text, ' ', "("@ + tail, Field::AppVersion);
    lemma_fixed(bytes, agent.app_version, mid, "("@, tail, "Mismatch AppVersion end"@)
}

/// The bundle is read where its text and `; build:` stand.
proof fn lemma_bundle(bytes: Seq<u8>, pos: int, agent: DefaultUserAgentView, tail: Seq<char>)
    -> (next: int)
    requires
        agent.is_canonical(),
        0 <= pos <= bytes.len(),
        bytes.skip(pos) == encode_utf8(text_or_unknown(agent.bundle) + "; build:"@ + tail),
    ensures
        pos <= next <= bytes.len(),
        bundle_at(bytes, pos) == Ok::<(Option<Seq<char>>, int), ParseErrorView>(
            (agent.bundle, next),
        ),
        bytes.skip(next) == encode_utf8(tail),
{
    reveal_strlit("; build:");
    reveal_strlit(" build:");
    let text = text_or_unknown(agent.bundle);
    lemma_bundle_text(agent);
    assert(text + "; build:"@ + tail =~= text + seq![';'] + (" build:"@ + tail));
    let mid = lemma_text_field(bytes, pos, text, ';', " build:"@ + tail, Field::Bundle);
    lemma_fixed(bytes, agent.bundle, mid, " build:"@, tail, "Mismatch Bundle end"@)
}

/// The build number is read where its text and `; ` stand.
proof fn lemma_app_build(bytes: Seq<u8>, pos: int, agent: DefaultUserAgentView, tail: Seq<char>)
    -> (next: int)
    requires
        agent.is_canonical(),
        0 <= pos <= bytes.len(),
        bytes.skip(pos) == encode_utf8(
            DefaultUserAgentAppBuild::text_or_unknown(agent.app_build) + "; "@ + tail,
        ),
    ensures
        pos <= next <= bytes.len(),
        app_build_at(bytes, pos) == Ok::<(Option<VersionView>, int), ParseErrorView>(
            (agent.app_build, next),
        ),
        bytes.skip(next) == encode_utf8(tail),
{
    reveal_strlit("; ");
    reveal_strlit(" ");
    let text = DefaultUserAgentAppBuild::text_or_unknown(agent.app_build);
    lemma_app_build_text(agent);
    assert(text + "; "@ + tail =~= text + seq![';'] + (" "@ + tail));
    let mid = lemma_text_field(bytes, pos, text, ';', " "@ + tail, Field::AppBuild);
    lemma_fixed(bytes, agent.app_build, mid, " "@, tail, "Mismatch AppBuild end"@)
}

/// The operating system is read where its text and a space stand.
proof fn lemma_os_name(bytes: Seq<u8>, pos: int, agent: DefaultUserAgentView, tail: Seq<char>)
    -> (next: int)
    requires
        0 <= pos <= bytes.len(),
        bytes.skip(pos) == encode_utf8(
            DefaultUserAgentOsName::text_or_unknown(agent.os_name) + " "@ + tail,
        ),
    ensures
        pos <= next <= bytes.len(),
        os_name_at(bytes, pos) == Ok::<(Option<DefaultUserAgentOsName>, int), ParseErrorView>(
            (agent.os_name, next),
        ),
        bytes.skip(next) == encode_utf8(tail),
{
    reveal_strlit(" ");
    let text = DefaultUserAgentOsName::text_or_unknown(agent.os_name);
    lemma_os_name_text(agent);
    assert(text + " "@ + tail =~= text + seq![' '] + tail);
    lemma_text_field(bytes, pos, text, ' ', tail, Field::OsName)
}

/// The system's version is read where its text and `) Alamofire/` stand.
proof fn lemma_os_version(bytes: Seq<u8>, pos: int, agent: DefaultUserAgentView, tail: Seq<char>)
    -> (next: int)
    requires
        agent.is_canonical(),
        0 <= pos <= bytes.len(),
        bytes.skip(pos) == encode_utf8(agent.os_version.text() + ") Alamofire/"@ + tail),
    ensures
        pos <= next <= bytes.len(),
        os_version_at(bytes, pos) == Ok::<(VersionView, int), ParseErrorView>(
            (agent.os_version, next),
        ),
        bytes.skip(next) == encode_utf8(tail),
{
    reveal_strlit(") Alamofire/");
    reveal_strlit(" Alamofire/");
    let text = agent.os_version.text();
    lemma_canonical_text(agent.os_version, Field::OsVersion);
    assert(text + ") Alamofire/"@ + tail =~= text + seq![')'] + (" Alamofire/"@ + tail));
    let mid = lemma_text_field(bytes, pos, text, ')', " Alamofire/"@ + tail, Field::OsVersion);
    lemma_fixed(bytes, agent.os_version, mid, " Alamofire/"@, tail, "Mismatch OsVersion end"@)
}

/// The library's version is read where the input ends with its text.
proof fn lemma_alamofire_version(bytes: Seq<u8>, pos: int, agent: DefaultUserAgentView)
    requires
        agent.is_canonical(),
        0 <= pos <= bytes.len(),
        bytes.skip(pos) == encode_utf8(agent.alamofire_version.text()),
    ensures
        alamofire_version_at(bytes, pos) == Ok::<VersionView, ParseErrorView>(
            agent.alamofire_version,
        ),
{
    let text = agent.alamofire_version.text();
    lemma_canonical_text(agent.alamofire_version, Field::AlamofireVersion);
    lemma_free_of(text, '\n');
    assert forall|i: int| pos <= i < bytes.len() implies bytes[i] != NEWLINE by {
        assert(bytes[i] == bytes.skip(pos)[i - pos]);
    }
    lemma_first_index_none(bytes, pos, NEWLINE);
    assert(bytes.subrange(pos, bytes.len() as int) =~= bytes.skip(pos));
    encode_utf8_valid_utf8(text);
    encode_utf8_decode_utf8(text);
}

/// The delimiter that ends a field; for the last field, the line terminator
/// that may end the input.
spec fn delimiter(field: Field) -> char {
    match field {
        Field::Executable => '/',
        Field::AppVersion => ' ',
        Field::Bundle => ';',
        Field::AppBuild => ';',
        Field::OsName => ' ',
        Field::OsVersion => ')',
        Field::AlamofireVersion => '\n',
    }
}

/// The text of every field of a canonical descriptor is free of the
/// delimiter that ends the field.
proof fn lemma_field_text(agent: DefaultUserAgentView, field: Field)
    requires
        agent.is_canonical(),
    ensures
        count_of(agent.field_text(field), delimiter(field)) == 0,
{
    lemma_executable_text(agent);
    lemma_app_version_text(agent);
    lemma_bundle_text(agent);
    lemma_app_build_text(agent);
    lemma_os_name_text(agent);
    lemma_canonical_text(agent.os_version, field);
    lemma_canonical_text(agent.alamofire_version, field);
}

/// A field is not read where the input ends within its text.
proof fn lemma_field_cut(
    bytes: Seq<u8>,
    pos: int,
    agent: DefaultUserAgentView,
    field: Field,
    keep: int,
)
    requires
        agent.is_canonical(),
        0 <= pos <= bytes.len(),
        0 <= keep <= agent.field_text(field).len(),
        bytes.skip(pos) == encode_utf8(agent.field_text(field).take(keep)),
    ensures
        text_field(bytes, pos, delimiter(field) as u8, field) == Err::<
            (Seq<char>, int),
            ParseErrorView,
        >(ParseErrorView::read(field, "Invalid"@)),
{
    let whole = agent.field_text(field);
    let part = whole.take(keep);
    lemma_field_text(agent, field);
    lemma_count_bounds(whole, delimiter(field));
    assert forall|i: int| 0 <= i < part.len() implies part[i] != delimiter(field) by {
        assert(part[i] == whole[i]);
    }
    lemma_free(part, delimiter(field));
    lemma_text_field_cut(bytes, pos, part, delimiter(field), field);
}

/// A field and what follows it can be taken together.
proof fn lemma_regroup(
    x: Seq<char>,
    sep: Seq<char>,
    field: Seq<char>,
    next: Seq<char>,
    tail: Seq<char>,
)
    ensures
        x + sep + field + next + tail == x + sep + (field + next + tail),
{
    assert(x + sep + field + next + tail =~= x + sep + (field + next + tail));
}

/// A beginning of a text is a beginning of the text with a delimiter and a
/// field more.
proof fn lemma_prefix_grow(cut: Seq<char>, x: Seq<char>, sep: Seq<char>, field: Seq<char>)
    requires
        cut.is_prefix_of(x),
    ensures
        cut.is_prefix_of(x + sep + field),
{
    assert(cut =~= (x + sep + field).subrange(0, cut.len() as int));
}

/// A text that ends with a beginning of a field is a beginning of the text
/// that ends with the field.
proof fn lemma_prefix_take(x: Seq<char>, sep: Seq<char>, field: Seq<char>, keep: int)
    requires
        0 <= keep <= field.len(),
    ensures
        (x + sep + field.take(keep)).is_prefix_of(x + sep + field),
        field.take(keep).is_prefix_of(field),
        x + sep + field.take(field.len() as int) == x + sep + field,
{
    let cut = x + sep + field.take(keep);
    assert(cut =~= (x + sep + field).subrange(0, cut.len() as int));
    assert(field.take(keep) =~= field.subrange(0, keep));
    assert(field.take(field.len() as int) =~= field);
}

/// A beginning of a beginning is a beginning.
proof fn lemma_prefix_trans(a: Seq<char>, b: Seq<char>, c: Seq<char>)
    requires
        a.is_prefix_of(b),
        b.is_prefix_of(c),
    ensures
        a.is_prefix_of(c),
{
    assert(a =~= c.subrange(0, a.len() as int));
}

/// Round trip: reading the text of a canonical descriptor gives the
/// descriptor back.
pub proof fn lemma_round_trip(agent: DefaultUserAgentView)
    requires
        agent.is_canonical(),
    ensures
        parse_spec(encode_utf8(agent.text())) == Ok::<DefaultUserAgentView, ParseErrorView>(agent),
{
    let bytes = encode_utf8(agent.text());
    let executable = text_or_unknown(agent.executable);
    let app_version = version_or_unknown(agent.app_version);
    let bundle = text_or_unknown(agent.bundle);
    let app_build = DefaultUserAgentAppBuild::text_or_unknown(agent.app_build);
    let os_name = DefaultUserAgentOsName::text_or_unknown(agent.os_name);
    let os_version = agent.os_version.text();
    let t6 = agent.alamofire_version.text();
    let t5 = os_version + ") Alamofire/"@ + t6;
    let t4 = os_name + " "@ + t5;
    let t3 = app_build + "; "@ + t4;
    let t2 = bundle + "; build:"@ + t3;
    let t1 = app_version + " ("@ + t2;
    assert(agent.text() == executable + "/"@ + t1) by {
        lemma_regroup(agent.text_up_to(Field::OsName), " "@, os_version, ") Alamofire/"@, t6);
        lemma_regroup(agent.text_up_to(Field::AppBuild), "; "@, os_name, " "@, t5);
        lemma_regroup(agent.text_up_to(Field::Bundle), "; build:"@, app_build, "; "@, t4);
        lemma_regroup(agent.text_up_to(Field::AppVersion), " ("@, bundle, "; build:"@, t3);
        lemma_regroup(executable, "/"@, app_version, " ("@, t2);
    }
    assert(bytes.skip(0) =~= bytes);
    let at_app_version = lemma_executable(bytes, 0, agent, t1);
    let at_bundle = lemma_app_version(bytes, at_app_version, agent, t2);
    let at_app_build = lemma_bundle(bytes, at_bundle, agent, t3);
    let at_os_name = lemma_app_build(bytes, at_app_build, agent, t4);
    let at_os_version = lemma_os_name(bytes, at_os_name, agent, t5);
    let at_alamofire_version = lemma_os_version(bytes, at_os_version, agent, t6);
    lemma_alamofire_version(bytes, at_alamofire_version, agent);
}

/// The text cut short after a field is the beginning of the whole text, and
/// cut after the last field it is the whole text.
pub proof fn lemma_text_up_to(agent: DefaultUserAgentView, field: Field)
    ensures
        agent.text_up_to(field).is_prefix_of(agent.text()),
        agent.text_up_to(Field::AlamofireVersion) == agent.text(),
{
    let cut = agent.text_up_to(field);
    assert(cut.is_prefix_of(cut)) by {
        assert(cut =~= cut.subrange(0, cut.len() as int));
    }
    if field == Field::Executable {
        lemma_prefix_grow(
            cut,
            agent.text_up_to(Field::Executable),
            "/"@,
            version_or_unknown(agent.app_version),
        );
    }
    if field == Field::Executable || field == Field::AppVersion {
        lemma_prefix_grow(
            cut,
            agent.text_up_to(Field::AppVersion),
            " ("@,
            text_or_unknown(agent.bundle),
        );
    }
    if field == Field::Executable || field == Field::AppVersion || field == Field::Bundle {
        lemma_prefix_grow(
            cut,
            agent.text_up_to(Field::Bundle),
            "; build:"@,
            DefaultUserAgentAppBuild::text_or_unknown(agent.app_build),
        );
    }
    if field != Field::OsName && field != Field::OsVersion && field != Field::AlamofireVersion {
        lemma_prefix_grow(
            cut,
            agent.text_up_to(Field::AppBuild),
            "; "@,
            DefaultUserAgentOsName::text_or_unknown(agent.os_name),
        );
    }
    if field != Field::OsVersion && field != Field::AlamofireVersion {
        lemma_prefix_grow(cut, agent.text_up_to(Field::OsName), " "@, agent.os_version.text());
    }
    if field != Field::AlamofireVersion {
        lemma_prefix_grow(
            cut,
            agent.text_up_to(Field::OsVersion),
            ") Alamofire/"@,
            agent.alamofire_version.text(),
        );
    }
}

/// The text cut short within a field is a beginning of the whole text, and
/// cut at the end of the field it is the text cut short after the field.
pub proof fn lemma_text_cut(agent: DefaultUserAgentView, field: Field, keep: int)
    requires
        0 <= keep <= agent.field_text(field).len(),
    ensures
        agent.text_cut(field, keep).is_prefix_of(agent.text()),
        agent.text_cut(field, agent.field_text(field).len() as int) == agent.text_up_to(field),
{
    let whole = agent.field_text(field);
    let empty = Seq::<char>::empty();
    match field {
        Field::Executable => {
            lemma_prefix_take(empty, empty, whole, keep);
        },
        Field::AppVersion => {
            lemma_prefix_take(agent.text_up_to(Field::Executable), "/"@, whole, keep);
        },
        Field::Bundle => {
            lemma_prefix_take(agent.text_up_to(Field::AppVersion), " ("@, whole, keep);
        },
        Field::AppBuild => {
            lemma_prefix_take(agent.text_up_to(Field::Bundle), "; build:"@, whole, keep);
        },
        Field::OsName => {
            lemma_prefix_take(agent.text_up_to(Field::AppBuild), "; "@, whole, keep);
        },
        Field::OsVersion => {
            lemma_prefix_take(agent.text_up_to(Field::OsName), " "@, whole, keep);
        },
        Field::AlamofireVersion => {
            lemma_prefix_take(agent.text_up_to(Field::OsVersion), ") Alamofire/"@, whole, keep);
        },
    }
    assert(agent.text_cut(field, keep).is_prefix_of(agent.text_up_to(field)));
    lemma_text_up_to(agent, field);
    lemma_prefix_trans(agent.text_cut(field, keep), agent.text_up_to(field), agent.text());
}

/// Field order: the text of a canonical descriptor, cut short anywhere from
/// the start of a field to the delimiter that ends it, fails to be read at
/// that field, for want of its delimiter. The last field has no delimiter
/// and is left out.
pub proof fn lemma_truncation(agent: DefaultUserAgentView, field: Field, keep: int)
    requires
        agent.is_canonical(),
        field != Field::AlamofireVersion,
        0 <= keep <= agent.field_text(field).len(),
    ensures
        parse_spec(encode_utf8(agent.text_cut(field, keep))) == Err::<
            DefaultUserAgentView,
            ParseErrorView,
        >(ParseErrorView::read(field, "Invalid"@)),
{
    let bytes = encode_utf8(agent.text_cut(field, keep));
    let part = agent.field_text(field).take(keep);
    let executable = text_or_unknown(agent.executable);
    let app_version = version_or_unknown(agent.app_version);
    let bundle = text_or_unknown(agent.bundle);
    let app_build = DefaultUserAgentAppBuild::text_or_unknown(agent.app_build);
    let os_name = DefaultUserAgentOsName::text_or_unknown(agent.os_name);
    let x1 = agent.text_up_to(Field::AppVersion);
    let x2 = agent.text_up_to(Field::Bundle);
    let x3 = agent.text_up_to(Field::AppBuild);
    assert(bytes.skip(0) =~= bytes);
    match field {
        Field::Executable => {
            lemma_field_cut(bytes, 0, agent, field, keep);
        },
        Field::AppVersion => {
            let at_app_version = lemma_executable(bytes, 0, agent, part);
            lemma_field_cut(bytes, at_app_version, agent, field, keep);
        },
        Field::Bundle => {
            let t1 = app_version + " ("@ + part;
            assert(agent.text_cut(field, keep) == executable + "/"@ + t1) by {
                lemma_regroup(executable, "/"@, app_version, " ("@, part);
            }
            let at_app_version = lemma_executable(bytes, 0, agent, t1);
            let at_bundle = lemma_app_version(bytes, at_app_version, agent, part);
            lemma_field_cut(bytes, at_bundle, agent, field, keep);
        },
        Field::AppBuild => {
            let t2 = bundle + "; build:"@ + part;
            let t1 = app_version + " ("@ + t2;
            assert(agent.text_cut(field, keep) == executable + "/"@ + t1) by {
                lemma_regroup(x1, " ("@, bundle, "; build:"@, part);
                lemma_regroup(executable, "/"@, app_version, " ("@, t2);
            }
            let at_app_version = lemma_executable(bytes, 0, agent, t1);
            let at_bundle = lemma_app_version(bytes, at_app_version, agent, t2);
            let at_app_build = lemma_bundle(bytes, at_bundle, agent, part);
            lemma_field_cut(bytes, at_app_build, agent, field, keep);
        },
        Field::OsName => {
            let t3 = app_build + "; "@ + part;
            let t2 = bundle + "; build:"@ + t3;
            let t1 = app_version + " ("@ + t2;
            assert(agent.text_cut(field, keep) == executable + "/"@ + t1) by {
                lemma_regroup(x2, "; build:"@, app_build, "; "@, part);
                lemma_regroup(x1, " ("@, bundle, "; build:"@, t3);
                lemma_regroup(executable, "/"@, app_version, " ("@, t2);
            }
            let at_app_version = lemma_executable(bytes, 0, agent, t1);
            let at_bundle = lemma_app_version(bytes, at_app_version, agent, t2);
            let at_app_build = lemma_bundle(bytes, at_bundle, agent, t3);
            let at_os_name = lemma_app_build(bytes, at_app_build, agent, part);
            lemma_field_cut(bytes, at_os_name, agent, field, keep);
        },
        Field::OsVersion => {
            let t4 = os_name + " "@ + part;
            let t3 = app_build + "; "@ + t4;
            let t2 = bundle + "; build:"@ + t3;
            let t1 = app_version + " ("@ + t2;
            assert(agent.text_cut(field, keep) == executable + "/"@ + t1) by {
                lemma_regroup(x3, "; "@, os_name, " "@, part);
                lemma_regroup(x2, "; build:"@, app_build, "; "@, t4);
                lemma_regroup(x1, " ("@, bundle, "; build:"@, t3);
                lemma_regroup(executable, "/"@, app_version, " ("@, t2);
            }
            let at_app_version = lemma_executable(bytes, 0, agent, t1);
            let at_bundle = lemma_app_version(bytes, at_app_version, agent, t2);
            let at_app_build = lemma_bundle(bytes, at_bundle, agent, t3);
            let at_os_name = lemma_app_build(bytes, at_app_build, agent, t4);
            let at_os_version = lemma_os_name(bytes, at_os_name, agent, part);
            lemma_field_cut(bytes, at_os_version, agent, field, keep);
        },
        Field::AlamofireVersion => {},
    }
}

/// A field that is read as text is free of the delimiter that ends it.
proof fn lemma_text_field_free(bytes: Seq<u8>, pos: int, delim: char, field: Field)
    requires
        0 <= pos <= bytes.len(),
        (delim as u32) < 0x80,
        text_field(bytes, pos, delim as u8, field) is Ok,
    ensures
        count_of(text_field(bytes, pos, delim as u8, field)->Ok_0.0, delim) == 0,
        pos < text_field(bytes, pos, delim as u8, field)->Ok_0.1 <= bytes.len(),
{
    let (text, next) = text_field(bytes, pos, delim as u8, field)->Ok_0;
    let raw = bytes.subrange(pos, next - 1);
    lemma_first_index(bytes, pos, delim as u8);
    assert forall|i: int| 0 <= i < raw.len() implies raw[i] != delim as u8 by {
        assert(raw[i] == bytes[pos + i]);
    }
    lemma_count_bounds(raw, delim as u8);
    decode_utf8_encode_utf8(raw);
    lemma_count_encoded(text, delim);
}

/// What is read keeps absence and the sentinel apart: an executable or a
/// bundle that is present is not the sentinel, and is free of the delimiter
/// that ended it.
pub proof fn lemma_parsed_fields(bytes: Seq<u8>)
    requires
        parse_spec(bytes) is Ok,
    ensures
        is_field_text(parse_spec(bytes)->Ok_0.executable, '/'),
        is_field_text(parse_spec(bytes)->Ok_0.bundle, ';'),
{
    lemma_text_field_free(bytes, 0, '/', Field::Executable);
    let at_app_version = executable_at(bytes, 0)->Ok_0.1;
    lemma_text_field_free(bytes, at_app_version, ' ', Field::AppVersion);
    let at_bundle = app_version_at(bytes, at_app_version)->Ok_0.1;
    lemma_text_field_free(bytes, at_bundle, ';', Field::Bundle);
}

/// Sentinel symmetry: a descriptor without any optional field is written
/// with the sentinel in all five places, and that text is read back as the
/// same descriptor.
pub proof fn lemma_sentinel_symmetry(os_version: VersionView, alamofire_version: VersionView)
    requires
        os_version.is_canonical(),
        alamofire_version.is_canonical(),
    ensures
        ({
            let agent = DefaultUserAgentView {
                executable: None,
                app_version: None,
                bundle: None,
                app_build: None,
                os_name: None,
                os_version,
                alamofire_version,
            };
            &&& agent.text() == "Unknown/Unknown (Unknown; build:Unknown; Unknown "@
                + os_version.text() + ") Alamofire/"@ + alamofire_version.text()
            &&& parse_spec(encode_utf8(agent.text())) == Ok::<
                DefaultUserAgentView,
                ParseErrorView,
            >(agent)
        }),
{
    let agent = DefaultUserAgentView {
        executable: None,
        app_version: None,
        bundle: None,
        app_build: None,
        os_name: None,
        os_version,
        alamofire_version,
    };
    reveal_strlit("Unknown/Unknown (Unknown; build:Unknown; Unknown ");
    reveal_strlit("Unknown");
    reveal_strlit("/");
    reveal_strlit(" (");
    reveal_strlit("; build:");
    reveal_strlit("; ");
    reveal_strlit(" ");
    assert(agent.text() =~= "Unknown/Unknown (Unknown; build:Unknown; Unknown "@
        + os_version.text() + ") Alamofire/"@ + alamofire_version.text());
    lemma_round_trip(agent);
}

} // verus!

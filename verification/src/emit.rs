//! The text of the generated operator.
//!
//! The output is a `friend` declaration followed by the definition of
//! `operator<<`. The definition writes the type's name, an opening
//! parenthesis, one clause per data member and a closing parenthesis. Every
//! clause but the last is followed by a separator.

use vstd::prelude::*;
use vstd::string::StringExecFns;
use crate::locate::texts;

verus! {

/// `<stream>& operator<<(<stream>& os, const <object>& obj)`
pub open spec fn signature(stream: Seq<char>, object: Seq<char>) -> Seq<char> {
    stream + "& operator<<("@ + stream + "& os, const "@ + object + "& obj)"@
}

/// The line that declares the operator a friend of the type.
pub open spec fn friend_line(stream: Seq<char>, object: Seq<char>) -> Seq<char> {
    "friend "@ + signature(stream, object) + ";"@
}

/// The line that opens the operator's definition.
pub open spec fn header_line(stream: Seq<char>, object: Seq<char>) -> Seq<char> {
    signature(stream, object) + " {"@
}

/// The line that opens the output statement and writes `<name> (`.
pub open spec fn opening_line(name: Seq<char>) -> Seq<char> {
    "\tos << \""@ + name + " (\""@
}

/// The dump of one data member: its name as a label, then its value.
pub open spec fn field_dump(field: Seq<char>) -> Seq<char> {
    "\t\t<< \""@ + field + ": \" << "@ + field
}

/// What follows the dump of a data member that is not the last.
pub open spec fn separator() -> Seq<char> {
    " << \", \""@
}

/// The line of the data member at `i`: its dump, and the separator unless it
/// is the last.
pub open spec fn field_line(fields: Seq<Seq<char>>, i: int) -> Seq<char> {
    if i == fields.len() - 1 {
        field_dump(fields[i])
    } else {
        field_dump(fields[i]) + separator()
    }
}

/// One line per data member, in order.
pub open spec fn field_lines(fields: Seq<Seq<char>>) -> Seq<Seq<char>> {
    Seq::new(fields.len(), |i: int| field_line(fields, i))
}

/// The line that writes the closing parenthesis and ends the statement.
pub open spec fn closing_line() -> Seq<char> {
    "\t<< \")\";"@
}

/// The line that returns the stream.
pub open spec fn return_line() -> Seq<char> {
    "\treturn os;"@
}

/// The line that ends the definition.
pub open spec fn end_line() -> Seq<char> {
    "}"@
}

/// The lines of the generated text, without their line ends: the friend
/// declaration, then the definition with one line per data member.
pub open spec fn dump_lines(
    stream: Seq<char>,
    object: Seq<char>,
    name: Seq<char>,
    fields: Seq<Seq<char>>,
) -> Seq<Seq<char>> {
    seq![friend_line(stream, object), header_line(stream, object), opening_line(name)]
        + field_lines(fields) + seq![closing_line(), return_line(), end_line()]
}

/// The text made of `lines`, each followed by a line end.
pub open spec fn terminated(lines: Seq<Seq<char>>) -> Seq<char> {
    lines.map_values(|l: Seq<char>| l + "\n"@).flatten()
}

/// The whole generated text.
pub open spec fn dump_op(
    stream: Seq<char>,
    object: Seq<char>,
    name: Seq<char>,
    fields: Seq<Seq<char>>,
) -> Seq<char> {
    terminated(dump_lines(stream, object, name, fields))
}

/// No line end occurs in `s`.
pub open spec fn one_line(s: Seq<char>) -> bool {
    forall|i: int| 0 <= i < s.len() ==> s[i] != '\n'
}

/// `lines` are the lines of `text`: the text is made of them, each followed
/// by a line end, and none of them holds a line end.
pub open spec fn is_lines_of(lines: Seq<Seq<char>>, text: Seq<char>) -> bool {
    text == terminated(lines) && forall|k: int|
        0 <= k < lines.len() ==> one_line(#[trigger] lines[k])
}

/// How the line of a data member starts.
pub open spec fn member_start() -> Seq<char> {
    "\t\t<< "@
}

/// How the line of a data member starts, up to the double quote that opens
/// its label.
pub open spec fn member_label_start() -> Seq<char> {
    "\t\t<< \""@
}

/// `line` starts as the line of a data member does.
pub open spec fn starts_member(line: Seq<char>) -> bool {
    member_start().is_prefix_of(line)
}

/// `pattern` stands in `text` at the index `i`.
pub open spec fn occurs_at(pattern: Seq<char>, text: Seq<char>, i: int) -> bool {
    0 <= i && i + pattern.len() <= text.len() && text.subrange(i, i + pattern.len()) == pattern
}

/// What a separator shows in the generated text: a comma and a space
/// between double quotes.
pub open spec fn separator_mark() -> Seq<char> {
    "\", \""@
}

/// No double quote occurs in `s`.
pub open spec fn no_quote(s: Seq<char>) -> bool {
    forall|i: int| 0 <= i < s.len() ==> s[i] != '"'
}

fn signature_text(stream_type: &str, obj_type: &str) -> (text: String)
    ensures
        text@ == signature(stream_type@, obj_type@),
{
    let mut text = stream_type.to_owned();
    text.append("& operator<<(");
    text.append(stream_type);
    text.append("& os, const ");
    text.append(obj_type);
    text.append("& obj)");
    text
}

fn friend_line_text(stream_type: &str, obj_type: &str) -> (text: String)
    ensures
        text@ == friend_line(stream_type@, obj_type@),
{
    let sig = signature_text(stream_type, obj_type);
    let mut text = "friend ".to_owned();
    text.append(sig.as_str());
    text.append(";");
    text
}

fn header_line_text(stream_type: &str, obj_type: &str) -> (text: String)
    ensures
        text@ == header_line(stream_type@, obj_type@),
{
    let mut text = signature_text(stream_type, obj_type);
    text.append(" {");
    text
}

fn opening_line_text(name: &str) -> (text: String)
    ensures
        text@ == opening_line(name@),
{
    let mut text = "\tos << \"".to_owned();
    text.append(name);
    text.append(" (\"");
    text
}

fn field_line_text(fields: &Vec<String>, i: usize) -> (text: String)
    requires
        i < fields.len(),
    ensures
        text@ == field_line(texts(fields@), i as int),
{
    let field = fields[i].as_str();
    let mut text = "\t\t<< \"".to_owned();
    text.append(field);
    text.append(": \" << ");
    text.append(field);
    if i != fields.len() - 1 {
        text.append(" << \", \"");
    }
    text
}

fn dump_lines_text(stream_type: &str, obj_type: &str, name: &str, fields: &Vec<String>) -> (lines:
    Vec<String>)
    ensures
        texts(lines@) == dump_lines(stream_type@, obj_type@, name@, texts(fields@)),
{
    let ghost head = seq![
        friend_line(stream_type@, obj_type@),
        header_line(stream_type@, obj_type@),
        opening_line(name@),
    ];
    let ghost members = field_lines(texts(fields@));
    let mut lines: Vec<String> = Vec::new();
    lines.push(friend_line_text(stream_type, obj_type));
    lines.push(header_line_text(stream_type, obj_type));
    lines.push(opening_line_text(name));
    assert(texts(lines@) =~= head + members.take(0));
    let mut i: usize = 0;
    while i < fields.len()
        invariant
            i <= fields.len(),
            members == field_lines(texts(fields@)),
            texts(lines@) == head + members.take(i as int),
        decreases fields.len() - i,
    {
        let line = field_line_text(fields, i);
        let ghost before = lines@;
        lines.push(line);
        assert(texts(lines@) =~= texts(before).push(line@));
        assert(texts(lines@) =~= head + members.take(i + 1));
        i += 1;
    }
    assert(members.take(fields@.len() as int) =~= members);
    let ghost before = lines@;
    lines.push("\t<< \")\";".to_owned());
    lines.push("\treturn os;".to_owned());
    lines.push("}".to_owned());
    assert(texts(lines@) =~= texts(before) + seq![closing_line(), return_line(), end_line()]);
    lines
}

fn join_lines(lines: &Vec<String>) -> (text: String)
    ensures
        text@ == terminated(texts(lines@)),
{
    let ghost ended = texts(lines@).map_values(|l: Seq<char>| l + "\n"@);
    let mut text = String::new();
    let mut i: usize = 0;
    assert(text@ =~= ended.take(0).flatten());
    while i < lines.len()
        invariant
            i <= lines.len(),
            ended == texts(lines@).map_values(|l: Seq<char>| l + "\n"@),
            text@ == ended.take(i as int).flatten(),
        decreases lines.len() - i,
    {
        let ghost before = text@;
        text.append(lines[i].as_str());
        text.append("\n");
        proof {
            let shorter = ended.take(i as int);
            let longer = ended.take(i + 1);
            assert(longer.drop_last() =~= shorter);
            shorter.lemma_flatten_and_flatten_alt_are_equivalent();
            longer.lemma_flatten_and_flatten_alt_are_equivalent();
            assert(text@ =~= before + (lines@[i as int]@ + "\n"@));
        }
        i += 1;
    }
    assert(ended.take(lines@.len() as int) =~= ended);
    text
}

/// Renders the friend declaration and the definition of `operator<<` for
/// the type `obj_type`, shown as `name`, with the data members `fields`.
pub fn gen_dump_op(stream_type: &str, obj_type: &str, name: &str, fields: &Vec<String>) -> (text:
    String)
    ensures
        text@ == dump_op(stream_type@, obj_type@, name@, texts(fields@)),
{
    let lines = dump_lines_text(stream_type, obj_type, name, fields);
    join_lines(&lines)
}

/// The text has six lines and one more for each data member. The lines of
/// the data members stand in the members' order after the first three lines.
pub proof fn lemma_dump_lines_shape(
    stream: Seq<char>,
    object: Seq<char>,
    name: Seq<char>,
    fields: Seq<Seq<char>>,
)
    ensures
        dump_lines(stream, object, name, fields).len() == fields.len() + 6,
        dump_lines(stream, object, name, fields)[0] == friend_line(stream, object),
        dump_lines(stream, object, name, fields)[1] == header_line(stream, object),
        dump_lines(stream, object, name, fields)[2] == opening_line(name),
        forall|i: int|
            0 <= i < fields.len() ==> #[trigger] dump_lines(stream, object, name, fields)[3 + i]
                == field_line(fields, i),
        dump_lines(stream, object, name, fields)[fields.len() as int + 3] == closing_line(),
        dump_lines(stream, object, name, fields)[fields.len() as int + 4] == return_line(),
        dump_lines(stream, object, name, fields)[fields.len() as int + 5] == end_line(),
{
}

/// There is one line per data member; the line of the last is its dump, the
/// line of every other is its dump followed by the separator.
pub proof fn lemma_field_lines(fields: Seq<Seq<char>>)
    ensures
        field_lines(fields).len() == fields.len(),
        forall|i: int|
            0 <= i < fields.len() - 1 ==> #[trigger] field_lines(fields)[i] == field_dump(
                fields[i],
            ) + separator(),
        fields.len() > 0 ==> field_lines(fields)[fields.len() - 1] == field_dump(
            fields[fields.len() - 1],
        ),
{
}

/// The line of the data member at `i` is the line at `3 + i` of the text: all
/// but the last of these lines end with the separator, and the last is the
/// bare dump of the last data member.
pub proof fn lemma_member_line_numbers(
    stream: Seq<char>,
    object: Seq<char>,
    name: Seq<char>,
    fields: Seq<Seq<char>>,
)
    ensures
        forall|i: int|
            0 <= i < fields.len() - 1 ==> #[trigger] dump_lines(stream, object, name, fields)[3
                + i] == field_dump(fields[i]) + separator(),
        fields.len() > 0 ==> dump_lines(stream, object, name, fields)[fields.len() as int + 2]
            == field_dump(fields[fields.len() - 1]),
{
    lemma_dump_lines_shape(stream, object, name, fields);
    if fields.len() > 0 {
        let last = fields.len() - 1;
        assert(dump_lines(stream, object, name, fields)[3 + last] == field_line(fields, last));
    }
}

/// Without data members the opening line is followed at once by the closing
/// line: the text has six lines and none of them is a member's.
pub proof fn lemma_no_fields(stream: Seq<char>, object: Seq<char>, name: Seq<char>)
    ensures
        dump_lines(stream, object, name, Seq::empty()) == seq![
            friend_line(stream, object),
            header_line(stream, object),
            opening_line(name),
            closing_line(),
            return_line(),
            end_line(),
        ],
{
    assert(dump_lines(stream, object, name, Seq::empty()) =~= seq![
        friend_line(stream, object),
        header_line(stream, object),
        opening_line(name),
        closing_line(),
        return_line(),
        end_line(),
    ]);
}

/// Two texts without a line end, one after the other, hold none.
pub proof fn lemma_one_line_concat(a: Seq<char>, b: Seq<char>)
    requires
        one_line(a),
        one_line(b),
    ensures
        one_line(a + b),
{
}

proof fn lemma_signature_one_line(stream: Seq<char>, object: Seq<char>)
    requires
        one_line(stream),
        one_line(object),
    ensures
        one_line(signature(stream, object)),
        one_line(friend_line(stream, object)),
        one_line(header_line(stream, object)),
{
    reveal_strlit("& operator<<(");
    reveal_strlit("& os, const ");
    reveal_strlit("& obj)");
    reveal_strlit("friend ");
    reveal_strlit(";");
    reveal_strlit(" {");
    let a = stream + "& operator<<("@;
    lemma_one_line_concat(stream, "& operator<<("@);
    lemma_one_line_concat(a, stream);
    lemma_one_line_concat(a + stream, "& os, const "@);
    lemma_one_line_concat(a + stream + "& os, const "@, object);
    lemma_one_line_concat(a + stream + "& os, const "@ + object, "& obj)"@);
    lemma_one_line_concat("friend "@, signature(stream, object));
    lemma_one_line_concat("friend "@ + signature(stream, object), ";"@);
    lemma_one_line_concat(signature(stream, object), " {"@);
}

proof fn lemma_field_line_one_line(fields: Seq<Seq<char>>, i: int)
    requires
        0 <= i < fields.len(),
        one_line(fields[i]),
    ensures
        one_line(field_line(fields, i)),
{
    reveal_strlit("\t\t<< \"");
    reveal_strlit(": \" << ");
    reveal_strlit(" << \", \"");
    let f = fields[i];
    lemma_one_line_concat("\t\t<< \""@, f);
    lemma_one_line_concat("\t\t<< \""@ + f, ": \" << "@);
    lemma_one_line_concat("\t\t<< \""@ + f + ": \" << "@, f);
    lemma_one_line_concat(field_dump(f), separator());
}

/// Where no argument holds a line end, the lines that the text is made of
/// are its lines: none of them holds a line end.
pub proof fn lemma_dump_lines_are_lines(
    stream: Seq<char>,
    object: Seq<char>,
    name: Seq<char>,
    fields: Seq<Seq<char>>,
)
    requires
        one_line(stream),
        one_line(object),
        one_line(name),
        forall|i: int| 0 <= i < fields.len() ==> one_line(#[trigger] fields[i]),
    ensures
        is_lines_of(
            dump_lines(stream, object, name, fields),
            dump_op(stream, object, name, fields),
        ),
{
    let lines = dump_lines(stream, object, name, fields);
    lemma_dump_lines_shape(stream, object, name, fields);
    lemma_signature_one_line(stream, object);
    reveal_strlit("\tos << \"");
    reveal_strlit(" (\"");
    reveal_strlit("\t<< \")\";");
    reveal_strlit("\treturn os;");
    reveal_strlit("}");
    lemma_one_line_concat("\tos << \""@, name);
    lemma_one_line_concat("\tos << \""@ + name, " (\""@);
    assert forall|k: int| 0 <= k < lines.len() implies one_line(#[trigger] lines[k]) by {
        if 3 <= k < fields.len() + 3 {
            assert(lines[3 + (k - 3)] == field_line(fields, k - 3));
            lemma_field_line_one_line(fields, k - 3);
        }
    }
}

/// A text has at most one sequence of lines.
pub proof fn lemma_lines_unique(a: Seq<Seq<char>>, b: Seq<Seq<char>>, text: Seq<char>)
    requires
        is_lines_of(a, text),
        is_lines_of(b, text),
    ensures
        a == b,
    decreases a.len(),
{
    reveal_strlit("\n");
    let ea = a.map_values(|l: Seq<char>| l + "\n"@);
    let eb = b.map_values(|l: Seq<char>| l + "\n"@);
    if a.len() == 0 || b.len() == 0 {
        if a.len() > 0 {
            assert(text.len() >= ea.first().len());
        }
        if b.len() > 0 {
            assert(text.len() >= eb.first().len());
        }
        assert(a =~= b);
    } else {
        let ra = ea.drop_first().flatten();
        let rb = eb.drop_first().flatten();
        let a0 = a[0];
        let b0 = b[0];
        assert(text == (a0 + "\n"@) + ra);
        assert(text == (b0 + "\n"@) + rb);
        assert(one_line(a0) && one_line(b0));
        if a0.len() < b0.len() {
            assert(text[a0.len() as int] == '\n');
            assert(text[a0.len() as int] == b0[a0.len() as int]);
        }
        if b0.len() < a0.len() {
            assert(text[b0.len() as int] == '\n');
            assert(text[b0.len() as int] == a0[b0.len() as int]);
        }
        assert(a0 =~= text.subrange(0, a0.len() as int));
        assert(b0 =~= text.subrange(0, b0.len() as int));
        assert(ra =~= text.subrange(a0.len() as int + 1, text.len() as int));
        assert(rb =~= text.subrange(b0.len() as int + 1, text.len() as int));
        assert(ea.drop_first() =~= a.drop_first().map_values(|l: Seq<char>| l + "\n"@));
        assert(eb.drop_first() =~= b.drop_first().map_values(|l: Seq<char>| l + "\n"@));
        assert forall|k: int| 0 <= k < a.drop_first().len() implies one_line(
            #[trigger] a.drop_first()[k],
        ) by {
            assert(a.drop_first()[k] == a[k + 1]);
        }
        assert forall|k: int| 0 <= k < b.drop_first().len() implies one_line(
            #[trigger] b.drop_first()[k],
        ) by {
            assert(b.drop_first()[k] == b[k + 1]);
        }
        lemma_lines_unique(a.drop_first(), b.drop_first(), ra);
        assert(a =~= seq![a0] + a.drop_first());
        assert(b =~= seq![b0] + b.drop_first());
    }
}

/// The text of some lines and one more is the text of the lines, then the
/// new line, then a line end.
pub proof fn lemma_terminated_push(lines: Seq<Seq<char>>, line: Seq<char>)
    ensures
        terminated(lines.push(line)) == terminated(lines) + (line + "\n"@),
{
    let ended = lines.map_values(|l: Seq<char>| l + "\n"@);
    let longer = lines.push(line).map_values(|l: Seq<char>| l + "\n"@);
    assert(longer.drop_last() =~= ended);
    ended.lemma_flatten_and_flatten_alt_are_equivalent();
    longer.lemma_flatten_and_flatten_alt_are_equivalent();
}

/// A pattern without a line end that stands in the text of some lines
/// stands in one of the lines.
pub proof fn lemma_occurs_in_a_line(pattern: Seq<char>, lines: Seq<Seq<char>>, i: int) -> (k: int)
    requires
        pattern.len() > 0,
        one_line(pattern),
        occurs_at(pattern, terminated(lines), i),
    ensures
        0 <= k < lines.len(),
        exists|j: int| occurs_at(pattern, lines[k], j),
    decreases lines.len(),
{
    reveal_strlit("\n");
    let text = terminated(lines);
    if lines.len() == 0 {
        assert(text.len() == 0);
        0
    } else {
        let shorter = lines.drop_last();
        let last = lines.last();
        let before = terminated(shorter);
        assert(lines =~= shorter.push(last));
        lemma_terminated_push(shorter, last);
        assert(text == before + (last + "\n"@));
        let found = text.subrange(i, i + pattern.len());
        if i + pattern.len() <= before.len() {
            assert(before.subrange(i, i + pattern.len()) =~= found);
            lemma_occurs_in_a_line(pattern, shorter, i)
        } else if i >= before.len() {
            let j = i - before.len();
            if j + pattern.len() > last.len() {
                assert(found[last.len() - j] == text[before.len() as int + last.len()]);
                assert(pattern[last.len() - j] == '\n');
                assert(false);
            }
            assert(last.subrange(j, j + pattern.len()) =~= found);
            assert(occurs_at(pattern, lines[lines.len() - 1], j));
            lines.len() - 1
        } else {
            assert(shorter.len() > 0) by {
                if shorter.len() == 0 {
                    assert(before.len() == 0);
                }
            }
            lemma_terminated_push(shorter.drop_last(), shorter.last());
            assert(shorter =~= shorter.drop_last().push(shorter.last()));
            assert(before[before.len() - 1] == '\n');
            assert(found[before.len() - 1 - i] == text[before.len() - 1]);
            assert(pattern[before.len() - 1 - i] == '\n');
            assert(false);
            0
        }
    }
}

/// Two texts without a double quote, one after the other, hold none.
pub proof fn lemma_no_quote_concat(a: Seq<char>, b: Seq<char>)
    requires
        no_quote(a),
        no_quote(b),
    ensures
        no_quote(a + b),
{
}

proof fn lemma_signature_no_quote(stream: Seq<char>, object: Seq<char>)
    requires
        no_quote(stream),
        no_quote(object),
    ensures
        no_quote(friend_line(stream, object)),
        no_quote(header_line(stream, object)),
{
    reveal_strlit("& operator<<(");
    reveal_strlit("& os, const ");
    reveal_strlit("& obj)");
    reveal_strlit("friend ");
    reveal_strlit(";");
    reveal_strlit(" {");
    let a = stream + "& operator<<("@;
    lemma_no_quote_concat(stream, "& operator<<("@);
    lemma_no_quote_concat(a, stream);
    lemma_no_quote_concat(a + stream, "& os, const "@);
    lemma_no_quote_concat(a + stream + "& os, const "@, object);
    lemma_no_quote_concat(a + stream + "& os, const "@ + object, "& obj)"@);
    lemma_no_quote_concat("friend "@, signature(stream, object));
    lemma_no_quote_concat("friend "@ + signature(stream, object), ";"@);
    lemma_no_quote_concat(signature(stream, object), " {"@);
}

/// Without data members, and with no double quote in the arguments, no
/// separator shows anywhere in the generated text.
pub proof fn lemma_no_fields_no_separator(stream: Seq<char>, object: Seq<char>, name: Seq<char>)
    requires
        no_quote(stream),
        no_quote(object),
        no_quote(name),
    ensures
        forall|i: int|
            !occurs_at(
                separator_mark(),
                dump_op(stream, object, name, Seq::empty()),
                i,
            ),
{
    let mark = separator_mark();
    let lines = dump_lines(stream, object, name, Seq::empty());
    lemma_no_fields(stream, object, name);
    reveal_strlit("\", \"");
    reveal_strlit("\tos << \"");
    reveal_strlit(" (\"");
    reveal_strlit("\t<< \")\";");
    reveal_strlit("\treturn os;");
    reveal_strlit("}");
    lemma_signature_no_quote(stream, object);
    assert forall|i: int| !occurs_at(mark, terminated(lines), i) by {
        if occurs_at(mark, terminated(lines), i) {
            let k = lemma_occurs_in_a_line(mark, lines, i);
            let j = choose|j: int| occurs_at(mark, lines[k], j);
            let line = lines[k];
            let found = line.subrange(j, j + 4);
            assert(found[0] == line[j] && found[1] == line[j + 1] && found[2] == line[j + 2]
                && found[3] == line[j + 3]);
            assert(line[j] == '"' && line[j + 1] == ',' && line[j + 3] == '"');
            if k == 2 {
                let opening = "\tos << \""@;
                assert(line == opening + name + " (\""@);
                assert(forall|m: int| 8 <= m < 8 + name.len() ==> line[m] == name[m - 8]);
                assert(j == 7 || j == line.len() - 1);
                assert(j + 3 == 7 || j + 3 == line.len() - 1);
                assert(name.len() == 0);
                assert(line[8] == ' ');
            }
            assert(false);
        }
    }
}

/// Where the stream type does not start with a tab, the lines that start as
/// a data member's line does are the lines of the data members, and no
/// others: there are as many as data members, after the first three lines.
pub proof fn lemma_member_lines(
    stream: Seq<char>,
    object: Seq<char>,
    name: Seq<char>,
    fields: Seq<Seq<char>>,
)
    requires
        stream.len() == 0 || stream[0] != '\t',
    ensures
        forall|k: int|
            0 <= k < fields.len() + 6 ==> (starts_member(
                #[trigger] dump_lines(stream, object, name, fields)[k],
            ) <==> 3 <= k < fields.len() + 3),
{
    let lines = dump_lines(stream, object, name, fields);
    let start = member_start();
    lemma_dump_lines_shape(stream, object, name, fields);
    reveal_strlit("\t\t<< ");
    reveal_strlit("\t\t<< \"");
    reveal_strlit("friend ");
    reveal_strlit("& operator<<(");
    reveal_strlit("\tos << \"");
    reveal_strlit("\t<< \")\";");
    reveal_strlit("\treturn os;");
    reveal_strlit("}");
    assert forall|k: int| 0 <= k < fields.len() + 6 implies (starts_member(#[trigger] lines[k])
        <==> 3 <= k < fields.len() + 3) by {
        let line = lines[k];
        if 3 <= k < fields.len() + 3 {
            assert(lines[3 + (k - 3)] == field_line(fields, k - 3));
            assert(start =~= line.subrange(0, start.len() as int));
        } else if start.is_prefix_of(line) {
            assert(line.subrange(0, start.len() as int)[0] == line[0]);
            assert(line.subrange(0, start.len() as int)[1] == line[1]);
            assert(line[0] == '\t' && line[1] == '\t');
            assert(false);
        }
    }
}

/// Where neither the stream type nor the object type holds a double quote,
/// the lines that start as a data member's line does, up to the double quote
/// of its label, are the lines of the data members, and no others.
pub proof fn lemma_member_lines_by_label(
    stream: Seq<char>,
    object: Seq<char>,
    name: Seq<char>,
    fields: Seq<Seq<char>>,
)
    requires
        no_quote(stream),
        no_quote(object),
    ensures
        forall|k: int|
            0 <= k < fields.len() + 6 ==> (member_label_start().is_prefix_of(
                #[trigger] dump_lines(stream, object, name, fields)[k],
            ) <==> 3 <= k < fields.len() + 3),
{
    let lines = dump_lines(stream, object, name, fields);
    let start = member_label_start();
    lemma_dump_lines_shape(stream, object, name, fields);
    lemma_signature_no_quote(stream, object);
    reveal_strlit("\t\t<< \"");
    reveal_strlit("\tos << \"");
    reveal_strlit("\t<< \")\";");
    reveal_strlit("\treturn os;");
    reveal_strlit("}");
    assert forall|k: int| 0 <= k < fields.len() + 6 implies (start.is_prefix_of(
        #[trigger] lines[k],
    ) <==> 3 <= k < fields.len() + 3) by {
        let line = lines[k];
        if 3 <= k < fields.len() + 3 {
            assert(lines[3 + (k - 3)] == field_line(fields, k - 3));
            assert(start =~= line.subrange(0, start.len() as int));
        } else if start.is_prefix_of(line) {
            assert(line.subrange(0, start.len() as int)[1] == line[1]);
            assert(line.subrange(0, start.len() as int)[5] == line[5]);
            assert(line[1] == '\t' && line[5] == '"');
            assert(false);
        }
    }
}

/// One more data member gives the former last line the separator and adds
/// one line after it; the lines before stay as they were.
pub proof fn lemma_one_more_field(fields: Seq<Seq<char>>, field: Seq<char>)
    requires
        fields.len() > 0,
    ensures
        field_lines(fields.push(field)) == field_lines(fields).drop_last().push(
            field_dump(fields.last()) + separator(),
        ).push(field_dump(field)),
{
    assert(field_lines(fields.push(field)) =~= field_lines(fields).drop_last().push(
        field_dump(fields.last()) + separator(),
    ).push(field_dump(field)));
}

} // verus!

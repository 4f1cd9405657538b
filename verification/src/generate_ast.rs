//! Generator of the syntax tree's declarations.
//!
//! A tree is described by the name of its base type and one line for each
//! kind of node, such as `Binary : Box<Expr> left, Token operator`: the
//! node's name, a colon, and its fields, each a type and a name, with
//! commas between them.  [`define_ast`] turns such a description into the
//! text of a source file that declares the tree; writing the file is left
//! to the caller.
//!
//! Two things are taken from the standard library and not looked into:
//! which characters are whitespace, and the lower case of a text (see
//! [`crate::text`]).  What is made of them is decided in functions that
//! take them as arguments: [`margins`] and [`render_with`].

use crate::grammar::{lemma_run_end, lemma_run_end_is, run_end};
use crate::text::{chars_between, chars_of, is_white_space, lowercase, string_of};
use vstd::prelude::*;
use vstd::string::StringExecFns;

verus! {

/// The class of the characters other than `c`.
pub open spec fn other_than(c: char) -> spec_fn(char) -> bool {
    |x: char| x != c
}

/// The position of the first `c` at or after `from`, or the end of the
/// text.
pub open spec fn position_of(s: Seq<char>, from: int, c: char) -> int {
    run_end(s, from, other_than(c))
}

/// The text before the first `c` and the text behind it, or `None` where
/// the text holds no `c`.
pub open spec fn split_once(s: Seq<char>, c: char) -> Option<(Seq<char>, Seq<char>)> {
    let at = position_of(s, 0, c);
    if at < s.len() {
        Some((s.subrange(0, at), s.subrange(at + 1, s.len() as int)))
    } else {
        None
    }
}

/// The stretches of the text between one `c` and the next, in order:
/// one more than the text holds `c`s.
pub open spec fn split(s: Seq<char>, c: char) -> Seq<Seq<char>>
    decreases s.len(),
    via split_decreases
{
    let at = position_of(s, 0, c);
    if at < s.len() {
        seq![s.subrange(0, at)] + split(s.subrange(at + 1, s.len() as int), c)
    } else {
        seq![s]
    }
}

#[via_fn]
proof fn split_decreases(s: Seq<char>, c: char) {
    lemma_run_end(s, 0, other_than(c));
}

/// Which characters of the text are whitespace.
pub open spec fn blanks_of(s: Seq<char>) -> Seq<bool> {
    Seq::new(s.len(), |i: int| is_white_space(s[i]))
}

/// Where the blanks end that begin at `from`: the first position at or
/// after `from` that is not blank, or the end.
pub open spec fn margin_start(blank: Seq<bool>, from: int) -> int
    decreases blank.len() - from,
{
    if 0 <= from < blank.len() && blank[from] {
        margin_start(blank, from + 1)
    } else {
        from
    }
}

/// Where the blanks begin with which the stretch from `low` to `to` ends.
pub open spec fn margin_end(blank: Seq<bool>, low: int, to: int) -> int
    decreases to - low,
{
    if low < to <= blank.len() && blank[to - 1] {
        margin_end(blank, low, to - 1)
    } else {
        to
    }
}

/// The text without the whitespace at its beginning and at its end.
pub open spec fn trimmed(s: Seq<char>) -> Seq<char> {
    let start = margin_start(blanks_of(s), 0);
    s.subrange(start, margin_end(blanks_of(s), start, s.len() as int))
}

/// One kind of node of the tree.
#[derive(Debug, PartialEq, Eq)]
pub struct TreeType {
    /// The node's own name, such as `Binary`.
    pub base_class_name: String,
    /// The name of the node's type: its own name and the name of the base
    /// type behind it, such as `BinaryExpr`.
    pub class_name: String,
    /// The node's fields, each as a declaration: name, colon, type.
    pub fields: Vec<String>,
}

/// What a [`TreeType`] stands for in specifications.
pub ghost struct TreeTypeView {
    pub base_class_name: Seq<char>,
    pub class_name: Seq<char>,
    pub fields: Seq<Seq<char>>,
}

/// The texts of a sequence of strings, in the same order.
pub open spec fn texts(strings: Seq<String>) -> Seq<Seq<char>> {
    strings.map_values(|s: String| s@)
}

/// The views of a sequence of character vectors, in the same order.
pub open spec fn char_views(parts: Seq<Vec<char>>) -> Seq<Seq<char>> {
    parts.map_values(|p: Vec<char>| p@)
}

impl View for TreeType {
    type V = TreeTypeView;

    open spec fn view(&self) -> TreeTypeView {
        TreeTypeView {
            base_class_name: self.base_class_name@,
            class_name: self.class_name@,
            fields: texts(self.fields@),
        }
    }
}

/// The views of a sequence of node kinds, in the same order.
pub open spec fn tree_type_views(tree_types: Seq<TreeType>) -> Seq<TreeTypeView> {
    tree_types.map_values(|t: TreeType| t@)
}

/// A generated source file: where it belongs, the node kinds it declares,
/// and its text.
#[derive(Debug, PartialEq, Eq)]
pub struct AstFile {
    pub path: String,
    pub tree_types: Vec<TreeType>,
    pub text: String,
}

/// What an [`AstFile`] stands for in specifications.
pub ghost struct AstFileView {
    pub path: Seq<char>,
    pub tree_types: Seq<TreeTypeView>,
    pub text: Seq<char>,
}

impl View for AstFile {
    type V = AstFileView;

    open spec fn view(&self) -> AstFileView {
        AstFileView {
            path: self.path@,
            tree_types: tree_type_views(self.tree_types@),
            text: self.text@,
        }
    }
}

/// The declaration of the field that `arg` describes: the text behind the
/// first space of the trimmed description, a colon, and the text before
/// that space, trimmed.  `None` where the trimmed description holds no
/// space.
pub open spec fn field_of(arg: Seq<char>) -> Option<Seq<char>> {
    match split_once(trimmed(arg), ' ') {
        Some((field_type, name)) => Some(name + ": "@ + trimmed(field_type)),
        None => None,
    }
}

/// The declarations of the fields that `args` describe, in order, or
/// `None` where one of them describes none.
pub open spec fn fields_of(args: Seq<Seq<char>>) -> Option<Seq<Seq<char>>> {
    if forall|i: int| 0 <= i < args.len() ==> (#[trigger] field_of(args[i])) is Some {
        Some(Seq::new(args.len(), |i: int| field_of(args[i])->0))
    } else {
        None
    }
}

/// The node kind that the line `line` describes in a tree whose base type
/// is `base_name`, or `None` where the line holds no colon or describes a
/// field without a space between type and name.
pub open spec fn tree_type_of(base_name: Seq<char>, line: Seq<char>) -> Option<TreeTypeView> {
    match split_once(line, ':') {
        Some((name, args)) => match fields_of(split(args, ',')) {
            Some(fields) => Some(
                TreeTypeView {
                    base_class_name: trimmed(name),
                    class_name: trimmed(name) + trimmed(base_name),
                    fields,
                },
            ),
            None => None,
        },
        None => None,
    }
}

/// The node kinds that the lines `lines` describe, in order, or `None`
/// where one of them describes none.
pub open spec fn tree_types_of(base_name: Seq<char>, lines: Seq<Seq<char>>) -> Option<
    Seq<TreeTypeView>,
> {
    if forall|i: int|
        0 <= i < lines.len() ==> (#[trigger] tree_type_of(base_name, lines[i])) is Some {
        Some(Seq::new(lines.len(), |i: int| tree_type_of(base_name, lines[i])->0))
    } else {
        None
    }
}

/// The variant of the base type for one node kind.
pub open spec fn variant_text(t: TreeTypeView) -> Seq<char> {
    "    "@ + t.base_class_name + "("@ + t.class_name + "),\n"@
}

/// The variants of the base type for the first `n` node kinds.
pub open spec fn variants_text(tree_types: Seq<TreeTypeView>, n: int) -> Seq<char>
    decreases n,
{
    if n <= 0 {
        Seq::empty()
    } else {
        variants_text(tree_types, n - 1) + variant_text(tree_types[n - 1])
    }
}

/// One field inside the declaration of a node type.
pub open spec fn field_text(field: Seq<char>) -> Seq<char> {
    "    "@ + field + ",\n"@
}

/// The first `n` fields inside the declaration of a node type.
pub open spec fn fields_text(fields: Seq<Seq<char>>, n: int) -> Seq<char>
    decreases n,
{
    if n <= 0 {
        Seq::empty()
    } else {
        fields_text(fields, n - 1) + field_text(fields[n - 1])
    }
}

/// The declaration of the type of one node kind.
pub open spec fn struct_text(t: TreeTypeView) -> Seq<char> {
    "pub struct "@ + t.class_name + " {\n"@ + fields_text(t.fields, t.fields.len() as int)
        + "}\n\n"@
}

/// The declarations of the types of the first `n` node kinds.
pub open spec fn structs_text(tree_types: Seq<TreeTypeView>, n: int) -> Seq<char>
    decreases n,
{
    if n <= 0 {
        Seq::empty()
    } else {
        structs_text(tree_types, n - 1) + struct_text(tree_types[n - 1])
    }
}

/// What the visitor's method for a node kind is called, where `name` is
/// what stands behind its `visit_`.  The visitor declares the method
/// under this name, and the node type calls it under this name.
pub open spec fn method_name(name: Seq<char>) -> Seq<char> {
    "visit_"@ + name
}

/// The visitor's method for one node kind, where `name` is what the
/// method is called behind its `visit_`.
pub open spec fn method_text(t: TreeTypeView, name: Seq<char>) -> Seq<char> {
    "     fn "@ + method_name(name) + "(&self, expr: &"@ + t.class_name
        + ") -> Result<T, LoxError>;\n"@
}

/// The visitor's methods for the first `n` node kinds.
pub open spec fn methods_text(tree_types: Seq<TreeTypeView>, names: Seq<Seq<char>>, n: int) -> Seq<
    char,
>
    decreases n,
{
    if n <= 0 {
        Seq::empty()
    } else {
        methods_text(tree_types, names, n - 1) + method_text(tree_types[n - 1], names[n - 1])
    }
}

/// How one node type accepts a visitor: it calls the method that the
/// visitor declares for it.  `name` is what that method is called behind
/// its `visit_`.
pub open spec fn accept_text(base_name: Seq<char>, t: TreeTypeView, name: Seq<char>) -> Seq<
    char,
> {
    "impl "@ + t.class_name + " {\n"@ + "fn accept<T>(&self, visitor: &dyn "@ + base_name
        + "Visitor<T>) -> Result<T, LoxError> {\n"@ + "    visitor."@ + method_name(name)
        + "(self)\n"@ + "   }\n"@ + "}\n\n"@
}

/// How the first `n` node types accept a visitor.
pub open spec fn accepts_text(
    base_name: Seq<char>,
    tree_types: Seq<TreeTypeView>,
    names: Seq<Seq<char>>,
    n: int,
) -> Seq<char>
    decreases n,
{
    if n <= 0 {
        Seq::empty()
    } else {
        accepts_text(base_name, tree_types, names, n - 1) + accept_text(
            base_name,
            tree_types[n - 1],
            names[n - 1],
        )
    }
}

/// The text of the source file that declares the tree: its imports, the
/// base type with one variant for each node kind, the type of each node
/// kind, the visitor with one method for each, and how each accepts a
/// visitor.  `names` holds, for each node kind, what the visitor's method
/// for it is called behind its `visit_`.
pub open spec fn file_text_with(
    base_name: Seq<char>,
    tree_types: Seq<TreeTypeView>,
    names: Seq<Seq<char>>,
) -> Seq<char> {
    let n = tree_types.len() as int;
    "use crate::error::*;\n"@ + "use crate::token::*;\n"@ + "\npub enum "@ + base_name + " {\n"@
        + variants_text(tree_types, n) + "}\n"@ + structs_text(tree_types, n) + "pub trait "@
        + base_name + "Visitor<T> {\n"@ + methods_text(tree_types, names, n) + "}\n\n"@
        + accepts_text(base_name, tree_types, names, n)
}

/// What the visitor's method for the node kind `t` is called behind its
/// `visit_`: the lower case of the node's name, an underscore, and the
/// lower case of the base type's name.
pub open spec fn visit_name(base_name: Seq<char>, t: TreeTypeView) -> Seq<char> {
    lowercase(t.base_class_name) + "_"@ + lowercase(base_name)
}

/// The names of the visitor's methods for the node kinds, in order.
pub open spec fn visit_names_of(base_name: Seq<char>, tree_types: Seq<TreeTypeView>) -> Seq<
    Seq<char>,
> {
    Seq::new(tree_types.len(), |i: int| visit_name(base_name, tree_types[i]))
}

/// The text of the source file that declares the tree.
pub open spec fn file_text(base_name: Seq<char>, tree_types: Seq<TreeTypeView>) -> Seq<char> {
    file_text_with(base_name, tree_types, visit_names_of(base_name, tree_types))
}

/// Where the source file of the tree belongs: in `output_dir`, under the
/// lower case of the base type's name.
pub open spec fn file_path(output_dir: Seq<char>, base_name: Seq<char>) -> Seq<char> {
    output_dir + "/"@ + lowercase(base_name) + ".rs"@
}

/// The source file for the tree that `base_name` and `lines` describe, or
/// `None` where a line describes no node kind.
pub open spec fn ast_file_of(
    output_dir: Seq<char>,
    base_name: Seq<char>,
    lines: Seq<Seq<char>>,
) -> Option<AstFileView> {
    match tree_types_of(base_name, lines) {
        Some(tree_types) => Some(
            AstFileView {
                path: file_path(output_dir, base_name),
                tree_types,
                text: file_text(base_name, tree_types),
            },
        ),
        None => None,
    }
}

/// The description of the tree of expressions: one line for each kind of
/// expression.
pub open spec fn expression_types() -> Seq<Seq<char>> {
    seq![
        "Binary : Box<Expr> left, Token operator, Box<Expr> right"@,
        "Grouping: Box<Expr> expression"@,
        "Literal : Object value"@,
        "Unary : Token operator, Box<Expr> right"@,
    ]
}

/// The first `c` of the rest of a text stands where the first `c` at or
/// after the start of that rest stands in the whole text.
pub proof fn lemma_position_of_rest(s: Seq<char>, from: int, c: char)
    requires
        0 <= from <= s.len(),
    ensures
        position_of(s.subrange(from, s.len() as int), 0, c) == position_of(s, from, c) - from,
{
    lemma_run_end(s, from, other_than(c));
    lemma_run_end_is(
        s.subrange(from, s.len() as int),
        0,
        other_than(c),
        position_of(s, from, c) - from,
    );
}

/// The position of the first `c` at or after `from`, or the length of the
/// text where there is none.
pub fn find(chars: &Vec<char>, from: usize, c: char) -> (at: usize)
    requires
        from <= chars.len(),
    ensures
        at == position_of(chars@, from as int, c),
        from <= at <= chars.len(),
{
    let mut at: usize = from;
    while at < chars.len() && chars[at] != c
        invariant
            from <= at <= chars.len(),
            position_of(chars@, at as int, c) == position_of(chars@, from as int, c),
        decreases chars.len() - at,
    {
        at += 1;
    }
    at
}

/// Splits the text at its first `c`: the text before it and the text
/// behind it, or `None` where the text holds no `c`.
pub fn split_once_at(chars: &Vec<char>, c: char) -> (halves: Option<(Vec<char>, Vec<char>)>)
    ensures
        match halves {
            Some((before, behind)) => split_once(chars@, c) == Some((before@, behind@)),
            None => split_once(chars@, c) is None,
        },
{
    let at = find(chars, 0, c);
    if at < chars.len() {
        Some((chars_between(chars, 0, at), chars_between(chars, at + 1, chars.len())))
    } else {
        None
    }
}

/// Splits the text at every `c`: the stretches between one `c` and the
/// next, in order.
pub fn split_at(chars: &Vec<char>, c: char) -> (parts: Vec<Vec<char>>)
    ensures
        char_views(parts@) == split(chars@, c),
{
    let mut parts: Vec<Vec<char>> = Vec::new();
    let mut start: usize = 0;
    assert(chars@.subrange(0, chars.len() as int) =~= chars@);
    assert(char_views(parts@) =~= Seq::empty());
    loop
        invariant
            start <= chars.len(),
            char_views(parts@) + split(chars@.subrange(start as int, chars.len() as int), c)
                == split(chars@, c),
        decreases chars.len() - start,
    {
        let ghost rest = chars@.subrange(start as int, chars.len() as int);
        let ghost before = char_views(parts@);
        let at = find(chars, start, c);
        proof {
            lemma_position_of_rest(chars@, start as int, c);
        }
        let part = chars_between(chars, start, at);
        parts.push(part);
        proof {
            assert(char_views(parts@) =~= before.push(part@));
            assert(rest.subrange(0, at - start) =~= part@);
        }
        if at < chars.len() {
            proof {
                assert(rest.subrange(at - start + 1, rest.len() as int) =~= chars@.subrange(
                    at + 1,
                    chars.len() as int,
                ));
                assert(before.push(part@) + split(
                    chars@.subrange(at + 1, chars.len() as int),
                    c,
                ) =~= before + split(rest, c));
            }
            start = at + 1;
        } else {
            proof {
                assert(before.push(part@) =~= before + split(rest, c));
            }
            return parts;
        }
    }
}

/// Which characters of the text are whitespace.
pub fn blanks(chars: &Vec<char>) -> (blank: Vec<bool>)
    ensures
        blank@ == blanks_of(chars@),
{
    let mut blank: Vec<bool> = Vec::new();
    let mut i: usize = 0;
    while i < chars.len()
        invariant
            i <= chars.len(),
            blank@ == blanks_of(chars@).take(i as int),
        decreases chars.len() - i,
    {
        blank.push(chars[i].is_whitespace());
        i += 1;
    }
    blank
}

/// Where the blanks at the beginning end and where the blanks at the end
/// begin: the stretch between the two is what is kept of a text when it
/// is trimmed.  Where all is blank, both are the end.
pub fn margins(blank: &Vec<bool>) -> (kept: (usize, usize))
    ensures
        kept.0 == margin_start(blank@, 0),
        kept.1 == margin_end(blank@, kept.0 as int, blank.len() as int),
        kept.0 <= kept.1 <= blank.len(),
{
    let mut start: usize = 0;
    while start < blank.len() && blank[start]
        invariant
            start <= blank.len(),
            margin_start(blank@, start as int) == margin_start(blank@, 0),
        decreases blank.len() - start,
    {
        start += 1;
    }
    let mut end: usize = blank.len();
    while start < end && blank[end - 1]
        invariant
            start <= end <= blank.len(),
            margin_end(blank@, start as int, end as int) == margin_end(
                blank@,
                start as int,
                blank.len() as int,
            ),
        decreases end - start,
    {
        end -= 1;
    }
    (start, end)
}

/// The text without the whitespace at its beginning and at its end.
pub fn trim(chars: &Vec<char>) -> (kept: Vec<char>)
    ensures
        kept@ == trimmed(chars@),
{
    let blank = blanks(chars);
    let (start, end) = margins(&blank);
    chars_between(chars, start, end)
}

/// The declaration of the field that `arg` describes, or `None` where it
/// describes none.
pub fn field(arg: &Vec<char>) -> (declared: Option<String>)
    ensures
        match declared {
            Some(text) => field_of(arg@) == Some(text@),
            None => field_of(arg@) is None,
        },
{
    let kept = trim(arg);
    match split_once_at(&kept, ' ') {
        Some((field_type, name)) => {
            let mut declared = string_of(&name);
            declared.append(": ");
            let field_type = string_of(&trim(&field_type));
            declared.append(field_type.as_str());
            Some(declared)
        },
        None => None,
    }
}

/// The declarations of the fields that `args` describe, in order, or
/// `None` where one of them describes none.
pub fn fields(args: &Vec<Vec<char>>) -> (declared: Option<Vec<String>>)
    ensures
        match declared {
            Some(fields) => fields_of(char_views(args@)) == Some(texts(fields@)),
            None => fields_of(char_views(args@)) is None,
        },
{
    let ghost described = char_views(args@);
    let mut fields: Vec<String> = Vec::new();
    let mut i: usize = 0;
    while i < args.len()
        invariant
            i <= args.len(),
            described == char_views(args@),
            fields@.len() == i,
            forall|j: int| 0 <= j < i ==> (#[trigger] field_of(described[j])) == Some(fields@[j]@),
        decreases args.len() - i,
    {
        match field(&args[i]) {
            Some(declared) => {
                fields.push(declared);
            },
            None => {
                assert(field_of(described[i as int]) is None);
                return None;
            },
        }
        i += 1;
    }
    assert(texts(fields@) =~= fields_of(described)->0);
    Some(fields)
}

/// The node kind that `line` describes in a tree whose base type is
/// `base_name`, or `None` where it describes none.
pub fn tree_type(base_name: &str, line: &str) -> (described: Option<TreeType>)
    ensures
        match described {
            Some(t) => tree_type_of(base_name@, line@) == Some(t@),
            None => tree_type_of(base_name@, line@) is None,
        },
{
    let chars = chars_of(line);
    match split_once_at(&chars, ':') {
        Some((name, args)) => {
            let base_class_name = string_of(&trim(&name));
            let mut class_name = base_class_name.clone();
            let base = string_of(&trim(&chars_of(base_name)));
            class_name.append(base.as_str());
            match fields(&split_at(&args, ',')) {
                Some(fields) => Some(TreeType { base_class_name, class_name, fields }),
                None => None,
            }
        },
        None => None,
    }
}

/// The node kinds that the lines `types` describe in a tree whose base
/// type is `base_name`, in order, or `None` where one of them describes
/// none.
pub fn tree_types(base_name: &str, types: &Vec<String>) -> (described: Option<Vec<TreeType>>)
    ensures
        match described {
            Some(tree_types) => tree_types_of(base_name@, texts(types@)) == Some(
                tree_type_views(tree_types@),
            ),
            None => tree_types_of(base_name@, texts(types@)) is None,
        },
{
    let ghost lines = texts(types@);
    let mut tree_types: Vec<TreeType> = Vec::new();
    let mut i: usize = 0;
    while i < types.len()
        invariant
            i <= types.len(),
            lines == texts(types@),
            tree_types@.len() == i,
            forall|j: int|
                0 <= j < i ==> (#[trigger] tree_type_of(base_name@, lines[j])) == Some(
                    tree_types@[j]@,
                ),
        decreases types.len() - i,
    {
        match tree_type(base_name, types[i].as_str()) {
            Some(described) => {
                tree_types.push(described);
            },
            None => {
                assert(tree_type_of(base_name@, lines[i as int]) is None);
                return None;
            },
        }
        i += 1;
    }
    assert(tree_type_views(tree_types@) =~= tree_types_of(base_name@, lines)->0);
    Some(tree_types)
}

/// Appends the variants of the base type, one for each node kind.
fn put_variants(text: &mut String, tree_types: &Vec<TreeType>)
    ensures
        final(text)@ == old(text)@ + variants_text(
            tree_type_views(tree_types@),
            tree_types.len() as int,
        ),
{
    let ghost start = text@;
    let ghost views = tree_type_views(tree_types@);
    let mut i: usize = 0;
    assert(start + variants_text(views, 0) =~= start);
    while i < tree_types.len()
        invariant
            i <= tree_types.len(),
            views == tree_type_views(tree_types@),
            text@ == start + variants_text(views, i as int),
        decreases tree_types.len() - i,
    {
        let t = &tree_types[i];
        let ghost before = text@;
        text.append("    ");
        text.append(t.base_class_name.as_str());
        text.append("(");
        text.append(t.class_name.as_str());
        text.append("),\n");
        assert(text@ =~= before + variant_text(views[i as int]));
        assert(text@ =~= start + variants_text(views, i + 1));
        i += 1;
    }
}

/// Appends the fields inside the declaration of a node type.
fn put_fields(text: &mut String, fields: &Vec<String>)
    ensures
        final(text)@ == old(text)@ + fields_text(texts(fields@), fields.len() as int),
{
    let ghost start = text@;
    let ghost views = texts(fields@);
    let mut i: usize = 0;
    assert(start + fields_text(views, 0) =~= start);
    while i < fields.len()
        invariant
            i <= fields.len(),
            views == texts(fields@),
            text@ == start + fields_text(views, i as int),
        decreases fields.len() - i,
    {
        let ghost before = text@;
        text.append("    ");
        text.append(fields[i].as_str());
        text.append(",\n");
        assert(text@ =~= before + field_text(views[i as int]));
        assert(text@ =~= start + fields_text(views, i + 1));
        i += 1;
    }
}

/// Appends the declarations of the types of the node kinds.
fn put_structs(text: &mut String, tree_types: &Vec<TreeType>)
    ensures
        final(text)@ == old(text)@ + structs_text(
            tree_type_views(tree_types@),
            tree_types.len() as int,
        ),
{
    let ghost start = text@;
    let ghost views = tree_type_views(tree_types@);
    let mut i: usize = 0;
    assert(start + structs_text(views, 0) =~= start);
    while i < tree_types.len()
        invariant
            i <= tree_types.len(),
            views == tree_type_views(tree_types@),
            text@ == start + structs_text(views, i as int),
        decreases tree_types.len() - i,
    {
        let t = &tree_types[i];
        let ghost before = text@;
        text.append("pub struct ");
        text.append(t.class_name.as_str());
        text.append(" {\n");
        put_fields(text, &t.fields);
        text.append("}\n\n");
        assert(text@ =~= before + struct_text(views[i as int]));
        assert(text@ =~= start + structs_text(views, i + 1));
        i += 1;
    }
}

/// Appends what the visitor's method is called of which `name` stands
/// behind the `visit_`.
fn put_method_name(text: &mut String, name: &str)
    ensures
        final(text)@ == old(text)@ + method_name(name@),
{
    let ghost before = text@;
    text.append("visit_");
    text.append(name);
    assert(text@ =~= before + method_name(name@));
}

/// Appends the visitor's methods, one for each node kind.
fn put_methods(text: &mut String, tree_types: &Vec<TreeType>, names: &Vec<String>)
    requires
        names.len() == tree_types.len(),
    ensures
        final(text)@ == old(text)@ + methods_text(
            tree_type_views(tree_types@),
            texts(names@),
            tree_types.len() as int,
        ),
{
    let ghost start = text@;
    let ghost views = tree_type_views(tree_types@);
    let ghost called = texts(names@);
    let mut i: usize = 0;
    assert(start + methods_text(views, called, 0) =~= start);
    while i < tree_types.len()
        invariant
            i <= tree_types.len(),
            names.len() == tree_types.len(),
            views == tree_type_views(tree_types@),
            called == texts(names@),
            text@ == start + methods_text(views, called, i as int),
        decreases tree_types.len() - i,
    {
        let ghost before = text@;
        text.append("     fn ");
        put_method_name(text, names[i].as_str());
        text.append("(&self, expr: &");
        text.append(tree_types[i].class_name.as_str());
        text.append(") -> Result<T, LoxError>;\n");
        assert(text@ =~= before + method_text(views[i as int], called[i as int]));
        assert(text@ =~= start + methods_text(views, called, i + 1));
        i += 1;
    }
}

/// Appends how the node types accept a visitor.
fn put_accepts(
    text: &mut String,
    base_name: &str,
    tree_types: &Vec<TreeType>,
    names: &Vec<String>,
)
    requires
        names.len() == tree_types.len(),
    ensures
        final(text)@ == old(text)@ + accepts_text(
            base_name@,
            tree_type_views(tree_types@),
            texts(names@),
            tree_types.len() as int,
        ),
{
    let ghost start = text@;
    let ghost views = tree_type_views(tree_types@);
    let ghost called = texts(names@);
    let mut i: usize = 0;
    assert(start + accepts_text(base_name@, views, called, 0) =~= start);
    while i < tree_types.len()
        invariant
            i <= tree_types.len(),
            names.len() == tree_types.len(),
            views == tree_type_views(tree_types@),
            called == texts(names@),
            text@ == start + accepts_text(base_name@, views, called, i as int),
        decreases tree_types.len() - i,
    {
        let ghost before = text@;
        text.append("impl ");
        text.append(tree_types[i].class_name.as_str());
        text.append(" {\n");
        text.append("fn accept<T>(&self, visitor: &dyn ");
        text.append(base_name);
        text.append("Visitor<T>) -> Result<T, LoxError> {\n");
        text.append("    visitor.");
        put_method_name(text, names[i].as_str());
        text.append("(self)\n");
        text.append("   }\n");
        text.append("}\n\n");
        assert(text@ =~= before + accept_text(base_name@, views[i as int], called[i as int]));
        assert(text@ =~= start + accepts_text(base_name@, views, called, i + 1));
        i += 1;
    }
}

/// The text of the source file that declares the tree of the node kinds
/// `tree_types` under the base type `base_name`, where `names` holds, for
/// each node kind, what the visitor's method for it is called behind its
/// `visit_`.
pub fn render_with(base_name: &str, tree_types: &Vec<TreeType>, names: &Vec<String>) -> (text:
    String)
    requires
        names.len() == tree_types.len(),
    ensures
        text@ == file_text_with(base_name@, tree_type_views(tree_types@), texts(names@)),
{
    let mut text = String::new();
    text.append("use crate::error::*;\n");
    text.append("use crate::token::*;\n");
    text.append("\npub enum ");
    text.append(base_name);
    text.append(" {\n");
    put_variants(&mut text, tree_types);
    text.append("}\n");
    put_structs(&mut text, tree_types);
    text.append("pub trait ");
    text.append(base_name);
    text.append("Visitor<T> {\n");
    put_methods(&mut text, tree_types, names);
    text.append("}\n\n");
    put_accepts(&mut text, base_name, tree_types, names);
    assert(text@ =~= file_text_with(base_name@, tree_type_views(tree_types@), texts(names@)));
    text
}

/// The names of the visitor's methods for the node kinds, in order, each
/// without the `visit_` before it.
pub fn visit_names(base_name: &str, tree_types: &Vec<TreeType>) -> (names: Vec<String>)
    ensures
        texts(names@) == visit_names_of(base_name@, tree_type_views(tree_types@)),
{
    let base = base_name.to_lowercase();
    let mut names: Vec<String> = Vec::new();
    let mut i: usize = 0;
    while i < tree_types.len()
        invariant
            i <= tree_types.len(),
            base@ == lowercase(base_name@),
            names@.len() == i,
            forall|j: int|
                0 <= j < i ==> (#[trigger] names@[j])@ == visit_name(base_name@, tree_types@[j]@),
        decreases tree_types.len() - i,
    {
        let mut name = tree_types[i].base_class_name.as_str().to_lowercase();
        name.append("_");
        name.append(base.as_str());
        names.push(name);
        i += 1;
    }
    assert(texts(names@) =~= visit_names_of(base_name@, tree_type_views(tree_types@)));
    names
}

/// The text of the source file that declares the tree of the node kinds
/// `tree_types` under the base type `base_name`.
pub fn render(base_name: &str, tree_types: &Vec<TreeType>) -> (text: String)
    ensures
        text@ == file_text(base_name@, tree_type_views(tree_types@)),
{
    let names = visit_names(base_name, tree_types);
    assert(texts(names@).len() == names.len());
    render_with(base_name, tree_types, &names)
}

/// The source file that declares the tree which `base_name` and `types`
/// describe, to be written under `output_dir`.  `None` where a line of
/// `types` holds no colon, or describes a field without a space between
/// its type and its name.
pub fn define_ast(output_dir: &String, base_name: &String, types: &Vec<String>) -> (file: Option<
    AstFile,
>)
    ensures
        match file {
            Some(f) => ast_file_of(output_dir@, base_name@, texts(types@)) == Some(f@),
            None => ast_file_of(output_dir@, base_name@, texts(types@)) is None,
        },
{
    let mut path = output_dir.clone();
    path.append("/");
    path.append(base_name.as_str().to_lowercase().as_str());
    path.append(".rs");
    assert(path@ =~= file_path(output_dir@, base_name@));
    match tree_types(base_name.as_str(), types) {
        Some(tree_types) => {
            let text = render(base_name.as_str(), &tree_types);
            Some(AstFile { path, tree_types, text })
        },
        None => None,
    }
}

/// The source file that declares the tree of expressions, to be written
/// under `output_dir`.
pub fn generate_ast(output_dir: String) -> (file: Option<AstFile>)
    ensures
        match file {
            Some(f) => ast_file_of(output_dir@, "Expr"@, expression_types()) == Some(f@),
            None => ast_file_of(output_dir@, "Expr"@, expression_types()) is None,
        },
{
    let types = vec![
        String::from_str("Binary : Box<Expr> left, Token operator, Box<Expr> right"),
        String::from_str("Grouping: Box<Expr> expression"),
        String::from_str("Literal : Object value"),
        String::from_str("Unary : Token operator, Box<Expr> right"),
    ];
    assert(texts(types@) =~= expression_types());
    define_ast(&output_dir, &String::from_str("Expr"), &types)
}

} // verus!

use vstd::prelude::*;

use crate::config::WireConfig;
use crate::error::DecodeError;
use crate::reader::Reader;
use crate::rv_map::{map_model_eq, model_insert, RvMap};
use crate::rvtype::RVType;
use crate::wire_string::WireString;
use crate::writer::Writer;

verus! {

/// A versioned-class metadata container: a structure version number and a
/// mapping from class name to class version.
///
/// Only the mapping travels on the wire; the structure version is local
/// state, and equality compares the mapping alone.
#[derive(Debug)]
pub struct ClassVersionContainer {
    pub structure_version: u32,
    pub class_versions: RvMap<WireString, u16>,
}

/// The text a decimal digit renders as.
pub open spec fn digit_chars(d: int) -> Seq<char> {
    if d == 0 {
        "0"@
    } else if d == 1 {
        "1"@
    } else if d == 2 {
        "2"@
    } else if d == 3 {
        "3"@
    } else if d == 4 {
        "4"@
    } else if d == 5 {
        "5"@
    } else if d == 6 {
        "6"@
    } else if d == 7 {
        "7"@
    } else if d == 8 {
        "8"@
    } else {
        "9"@
    }
}

/// The decimal rendering of a number, most significant digit first.
pub open spec fn decimal_chars(v: int) -> Seq<char>
    decreases v,
{
    if v < 10 {
        digit_chars(v)
    } else {
        decimal_chars(v / 10) + digit_chars(v % 10)
    }
}

/// A run of tab characters.
pub open spec fn tab_chars(n: int) -> Seq<char>
    decreases n,
{
    if n <= 0 {
        Seq::empty()
    } else {
        tab_chars(n - 1) + "\t"@
    }
}

/// The text a single byte renders as: printable ASCII stands for
/// itself; anything else renders as a question mark.
pub open spec fn byte_chars(b: u8) -> Seq<char> {
    if b == 32 {
        " "@
    } else if b == 33 {
        "!"@
    } else if b == 34 {
        "\""@
    } else if b == 35 {
        "#"@
    } else if b == 36 {
        "$"@
    } else if b == 37 {
        "%"@
    } else if b == 38 {
        "&"@
    } else if b == 39 {
        "'"@
    } else if b == 40 {
        "("@
    } else if b == 41 {
        ")"@
    } else if b == 42 {
        "*"@
    } else if b == 43 {
        "+"@
    } else if b == 44 {
        ","@
    } else if b == 45 {
        "-"@
    } else if b == 46 {
        "."@
    } else if b == 47 {
        "/"@
    } else if b == 48 {
        "0"@
    } else if b == 49 {
        "1"@
    } else if b == 50 {
        "2"@
    } else if b == 51 {
        "3"@
    } else if b == 52 {
        "4"@
    } else if b == 53 {
        "5"@
    } else if b == 54 {
        "6"@
    } else if b == 55 {
        "7"@
    } else if b == 56 {
        "8"@
    } else if b == 57 {
        "9"@
    } else if b == 58 {
        ":"@
    } else if b == 59 {
        ";"@
    } else if b == 60 {
        "<"@
    } else if b == 61 {
        "="@
    } else if b == 62 {
        ">"@
    } else if b == 63 {
        "?"@
    } else if b == 64 {
        "@"@
    } else if b == 65 {
        "A"@
    } else if b == 66 {
        "B"@
    } else if b == 67 {
        "C"@
    } else if b == 68 {
        "D"@
    } else if b == 69 {
        "E"@
    } else if b == 70 {
        "F"@
    } else if b == 71 {
        "G"@
    } else if b == 72 {
        "H"@
    } else if b == 73 {
        "I"@
    } else if b == 74 {
        "J"@
    } else if b == 75 {
        "K"@
    } else if b == 76 {
        "L"@
    } else if b == 77 {
        "M"@
    } else if b == 78 {
        "N"@
    } else if b == 79 {
        "O"@
    } else if b == 80 {
        "P"@
    } else if b == 81 {
        "Q"@
    } else if b == 82 {
        "R"@
    } else if b == 83 {
        "S"@
    } else if b == 84 {
        "T"@
    } else if b == 85 {
        "U"@
    } else if b == 86 {
        "V"@
    } else if b == 87 {
        "W"@
    } else if b == 88 {
        "X"@
    } else if b == 89 {
        "Y"@
    } else if b == 90 {
        "Z"@
    } else if b == 91 {
        "["@
    } else if b == 92 {
        "\\"@
    } else if b == 93 {
        "]"@
    } else if b == 94 {
        "^"@
    } else if b == 95 {
        "_"@
    } else if b == 96 {
        "`"@
    } else if b == 97 {
        "a"@
    } else if b == 98 {
        "b"@
    } else if b == 99 {
        "c"@
    } else if b == 100 {
        "d"@
    } else if b == 101 {
        "e"@
    } else if b == 102 {
        "f"@
    } else if b == 103 {
        "g"@
    } else if b == 104 {
        "h"@
    } else if b == 105 {
        "i"@
    } else if b == 106 {
        "j"@
    } else if b == 107 {
        "k"@
    } else if b == 108 {
        "l"@
    } else if b == 109 {
        "m"@
    } else if b == 110 {
        "n"@
    } else if b == 111 {
        "o"@
    } else if b == 112 {
        "p"@
    } else if b == 113 {
        "q"@
    } else if b == 114 {
        "r"@
    } else if b == 115 {
        "s"@
    } else if b == 116 {
        "t"@
    } else if b == 117 {
        "u"@
    } else if b == 118 {
        "v"@
    } else if b == 119 {
        "w"@
    } else if b == 120 {
        "x"@
    } else if b == 121 {
        "y"@
    } else if b == 122 {
        "z"@
    } else if b == 123 {
        "{"@
    } else if b == 124 {
        "|"@
    } else if b == 125 {
        "}"@
    } else if b == 126 {
        "~"@
    } else {
        "?"@
    }
}

/// Append the text a single byte renders as.
fn append_byte_text(s: &mut String, b: u8)
    ensures
        final(s)@ == old(s)@ + byte_chars(b),
{
    if b == 32 {
        s.append(" ");
    } else if b == 33 {
        s.append("!");
    } else if b == 34 {
        s.append("\"");
    } else if b == 35 {
        s.append("#");
    } else if b == 36 {
        s.append("$");
    } else if b == 37 {
        s.append("%");
    } else if b == 38 {
        s.append("&");
    } else if b == 39 {
        s.append("'");
    } else if b == 40 {
        s.append("(");
    } else if b == 41 {
        s.append(")");
    } else if b == 42 {
        s.append("*");
    } else if b == 43 {
        s.append("+");
    } else if b == 44 {
        s.append(",");
    } else if b == 45 {
        s.append("-");
    } else if b == 46 {
        s.append(".");
    } else if b == 47 {
        s.append("/");
    } else if b == 48 {
        s.append("0");
    } else if b == 49 {
        s.append("1");
    } else if b == 50 {
        s.append("2");
    } else if b == 51 {
        s.append("3");
    } else if b == 52 {
        s.append("4");
    } else if b == 53 {
        s.append("5");
    } else if b == 54 {
        s.append("6");
    } else if b == 55 {
        s.append("7");
    } else if b == 56 {
        s.append("8");
    } else if b == 57 {
        s.append("9");
    } else if b == 58 {
        s.append(":");
    } else if b == 59 {
        s.append(";");
    } else if b == 60 {
        s.append("<");
    } else if b == 61 {
        s.append("=");
    } else if b == 62 {
        s.append(">");
    } else if b == 63 {
        s.append("?");
    } else if b == 64 {
        s.append("@");
    } else if b == 65 {
        s.append("A");
    } else if b == 66 {
        s.append("B");
    } else if b == 67 {
        s.append("C");
    } else if b == 68 {
        s.append("D");
    } else if b == 69 {
        s.append("E");
    } else if b == 70 {
        s.append("F");
    } else if b == 71 {
        s.append("G");
    } else if b == 72 {
        s.append("H");
    } else if b == 73 {
        s.append("I");
    } else if b == 74 {
        s.append("J");
    } else if b == 75 {
        s.append("K");
    } else if b == 76 {
        s.append("L");
    } else if b == 77 {
        s.append("M");
    } else if b == 78 {
        s.append("N");
    } else if b == 79 {
        s.append("O");
    } else if b == 80 {
        s.append("P");
    } else if b == 81 {
        s.append("Q");
    } else if b == 82 {
        s.append("R");
    } else if b == 83 {
        s.append("S");
    } else if b == 84 {
        s.append("T");
    } else if b == 85 {
        s.append("U");
    } else if b == 86 {
        s.append("V");
    } else if b == 87 {
        s.append("W");
    } else if b == 88 {
        s.append("X");
    } else if b == 89 {
        s.append("Y");
    } else if b == 90 {
        s.append("Z");
    } else if b == 91 {
        s.append("[");
    } else if b == 92 {
        s.append("\\");
    } else if b == 93 {
        s.append("]");
    } else if b == 94 {
        s.append("^");
    } else if b == 95 {
        s.append("_");
    } else if b == 96 {
        s.append("`");
    } else if b == 97 {
        s.append("a");
    } else if b == 98 {
        s.append("b");
    } else if b == 99 {
        s.append("c");
    } else if b == 100 {
        s.append("d");
    } else if b == 101 {
        s.append("e");
    } else if b == 102 {
        s.append("f");
    } else if b == 103 {
        s.append("g");
    } else if b == 104 {
        s.append("h");
    } else if b == 105 {
        s.append("i");
    } else if b == 106 {
        s.append("j");
    } else if b == 107 {
        s.append("k");
    } else if b == 108 {
        s.append("l");
    } else if b == 109 {
        s.append("m");
    } else if b == 110 {
        s.append("n");
    } else if b == 111 {
        s.append("o");
    } else if b == 112 {
        s.append("p");
    } else if b == 113 {
        s.append("q");
    } else if b == 114 {
        s.append("r");
    } else if b == 115 {
        s.append("s");
    } else if b == 116 {
        s.append("t");
    } else if b == 117 {
        s.append("u");
    } else if b == 118 {
        s.append("v");
    } else if b == 119 {
        s.append("w");
    } else if b == 120 {
        s.append("x");
    } else if b == 121 {
        s.append("y");
    } else if b == 122 {
        s.append("z");
    } else if b == 123 {
        s.append("{");
    } else if b == 124 {
        s.append("|");
    } else if b == 125 {
        s.append("}");
    } else if b == 126 {
        s.append("~");
    } else {
        s.append("?");
    }
}

/// The text a run of bytes renders as, byte by byte.
pub open spec fn text_chars(bytes: Seq<u8>) -> Seq<char>
    decreases bytes.len(),
{
    if bytes.len() == 0 {
        Seq::empty()
    } else {
        byte_chars(bytes[0]) + text_chars(bytes.skip(1))
    }
}

/// The rendering of a mapping's pairs: one line per pair, tab-indented,
/// `key: value,`.
pub open spec fn entries_chars(s: Seq<(WireString, u16)>) -> Seq<char>
    decreases s.len(),
{
    if s.len() == 0 {
        Seq::empty()
    } else {
        "\t"@ + text_chars(s[0].0.data@) + ": "@ + decimal_chars(s[0].1 as int) + ",\n"@
            + entries_chars(s.skip(1))
    }
}

/// The rendering of a mapping: braces around its pairs, or bare braces
/// when it holds none.
pub open spec fn map_chars(s: Seq<(WireString, u16)>) -> Seq<char> {
    if s.len() == 0 {
        "{}"@
    } else {
        "{\n"@ + entries_chars(s) + "}"@
    }
}

/// The rendering of a whole container at an indentation depth: the
/// fields one tab deeper than the closing brace.
pub open spec fn container_chars(
    version: u32,
    entries: Seq<(WireString, u16)>,
    level: int,
) -> Seq<char> {
    "ClassVersionContainer{\n"@ + tab_chars(level + 1) + "StructureVersion: "@ + decimal_chars(
        version as int,
    ) + ",\n"@ + tab_chars(level + 1) + "ClassVersions: "@ + map_chars(entries) + "\n"@
        + tab_chars(level) + "}"@
}

/// Append one decimal digit.
fn append_digit(s: &mut String, d: u64)
    requires
        d < 10,
    ensures
        final(s)@ == old(s)@ + digit_chars(d as int),
{
    if d == 0 {
        s.append("0");
    } else if d == 1 {
        s.append("1");
    } else if d == 2 {
        s.append("2");
    } else if d == 3 {
        s.append("3");
    } else if d == 4 {
        s.append("4");
    } else if d == 5 {
        s.append("5");
    } else if d == 6 {
        s.append("6");
    } else if d == 7 {
        s.append("7");
    } else if d == 8 {
        s.append("8");
    } else {
        s.append("9");
    }
}

/// The decimal digits of a 64-bit number, as text.
pub fn format_u64(value: u64) -> (r: String)
    ensures
        r@ == decimal_chars(value as int),
    decreases value,
{
    if value < 10 {
        let mut s = String::new();
        append_digit(&mut s, value);
        proof {
            assert(s@ =~= decimal_chars(value as int));
        }
        s
    } else {
        let mut s = format_u64(value / 10);
        append_digit(&mut s, value % 10);
        proof {
            assert(s@ =~= decimal_chars(value as int));
        }
        s
    }
}

/// The decimal digits of a 32-bit number, as text.
pub fn format_u32(value: u32) -> (r: String)
    ensures
        r@ == decimal_chars(value as int),
{
    format_u64(value as u64)
}

/// The decimal digits of a machine-sized number, as text.
pub fn format_usize(value: usize) -> (r: String)
    ensures
        r@ == decimal_chars(value as int),
{
    format_u64(value as u64)
}

/// Append a run of tab characters.
fn append_tabs(s: &mut String, n: usize)
    ensures
        final(s)@ == old(s)@ + tab_chars(n as int),
{
    proof {
        assert(s@ =~= old(s)@ + tab_chars(0));
    }
    let mut i: usize = 0;
    while i < n
        invariant
            i <= n,
            s@ == old(s)@ + tab_chars(i as int),
        decreases n - i,
    {
        s.append("\t");
        i = i + 1;
        proof {
            assert(s@ =~= old(s)@ + tab_chars(i as int));
        }
    }
}

/// Append the text of the bytes at and after an index.
fn append_text(s: &mut String, bytes: &Vec<u8>, from: usize)
    requires
        from <= bytes@.len(),
    ensures
        final(s)@ == old(s)@ + text_chars(bytes@.skip(from as int)),
    decreases bytes@.len() - from,
{
    if from < bytes.len() {
        append_byte_text(s, bytes[from]);
        append_text(s, bytes, from + 1);
        proof {
            assert(bytes@.skip(from as int)[0] == bytes@[from as int]);
            assert(bytes@.skip(from as int).skip(1) =~= bytes@.skip(from as int + 1));
            assert(s@ =~= old(s)@ + text_chars(bytes@.skip(from as int)));
        }
    } else {
        proof {
            assert(bytes@.skip(from as int) =~= Seq::<u8>::empty());
            assert(s@ =~= old(s)@ + text_chars(bytes@.skip(from as int)));
        }
    }
}

/// Append the rendering of the pairs at and after an index.
fn append_entries(s: &mut String, entries: &Vec<(WireString, u16)>, from: usize)
    requires
        from <= entries@.len(),
    ensures
        final(s)@ == old(s)@ + entries_chars(entries@.skip(from as int)),
    decreases entries@.len() - from,
{
    if from < entries.len() {
        s.append("\t");
        append_text(s, &entries[from].0.data, 0);
        s.append(": ");
        let value_text = format_u64(entries[from].1 as u64);
        s.append(value_text.as_str());
        s.append(",\n");
        append_entries(s, entries, from + 1);
        proof {
            assert(entries@.skip(from as int)[0] == entries@[from as int]);
            assert(entries@.skip(from as int).skip(1) =~= entries@.skip(from as int + 1));
            assert(entries@[from as int].0.data@.skip(0) =~= entries@[from as int].0.data@);
            assert(s@ =~= old(s)@ + entries_chars(entries@.skip(from as int)));
        }
    } else {
        proof {
            assert(entries@.skip(from as int) =~= Seq::<(WireString, u16)>::empty());
            assert(s@ =~= old(s)@ + entries_chars(entries@.skip(from as int)));
        }
    }
}

/// Append the rendering of a whole mapping.
fn append_map(s: &mut String, entries: &Vec<(WireString, u16)>)
    ensures
        final(s)@ == old(s)@ + map_chars(entries@),
{
    if entries.len() == 0 {
        s.append("{}");
    } else {
        s.append("{\n");
        append_entries(s, entries, 0);
        s.append("}");
        proof {
            assert(entries@.skip(0) =~= entries@);
            assert(s@ =~= old(s)@ + map_chars(entries@));
        }
    }
}

impl ClassVersionContainer {
    /// A fresh container: structure version zero, no class versions.
    pub fn new() -> (r: Self)
        ensures
            r.inv(),
            r.structure_version == 0,
            r.class_versions.model() == Seq::<(Seq<u8>, u16)>::empty(),
    {
        ClassVersionContainer { structure_version: 0, class_versions: RvMap::new() }
    }

    /// Record the version of a class, replacing any earlier record.
    pub fn set_version(&mut self, name: WireString, version: u16)
        requires
            old(self).inv(),
        ensures
            final(self).inv(),
            final(self).structure_version == old(self).structure_version,
            final(self).class_versions.model() == model_insert::<WireString, u16>(
                old(self).class_versions.model(),
                name.data@,
                version,
            ),
    {
        self.class_versions.insert(name, version);
    }

    /// Render the container as text at the given indentation depth: the
    /// fields one tab deeper than the closing brace, and the mapping's
    /// pairs one per line.
    pub fn format_to_string(&self, indentation_level: usize) -> (r: String)
        ensures
            r@ == container_chars(
                self.structure_version,
                self.class_versions.entries@,
                indentation_level as int,
            ),
    {
        let mut s = String::new();
        s.append("ClassVersionContainer{\n");
        append_tabs(&mut s, indentation_level);
        s.append("\t");
        s.append("StructureVersion: ");
        let version_text = format_u32(self.structure_version);
        s.append(version_text.as_str());
        s.append(",\n");
        append_tabs(&mut s, indentation_level);
        s.append("\t");
        s.append("ClassVersions: ");
        append_map(&mut s, &self.class_versions.entries);
        s.append("\n");
        append_tabs(&mut s, indentation_level);
        s.append("}");
        proof {
            assert(s@ =~= container_chars(
                self.structure_version,
                self.class_versions.entries@,
                indentation_level as int,
            ));
        }
        s
    }
}

impl RVType for ClassVersionContainer {
    type Model = Seq<(Seq<u8>, u16)>;

    open spec fn inv(&self) -> bool {
        self.class_versions.inv()
    }

    open spec fn model(&self) -> Seq<(Seq<u8>, u16)> {
        self.class_versions.model()
    }

    open spec fn model_wf(m: Seq<(Seq<u8>, u16)>) -> bool {
        <RvMap<WireString, u16> as RVType>::model_wf(m)
    }

    open spec fn model_eq(a: Seq<(Seq<u8>, u16)>, b: Seq<(Seq<u8>, u16)>) -> bool {
        map_model_eq::<WireString, u16>(a, b)
    }

    open spec fn wire_spec(&self, config: WireConfig) -> Seq<u8> {
        self.class_versions.wire_spec(config)
    }

    open spec fn wire_valid(&self, config: WireConfig) -> bool {
        self.class_versions.wire_valid(config)
    }

    open spec fn wire_decode(bytes: Seq<u8>, config: WireConfig) -> Option<
        (Seq<(Seq<u8>, u16)>, nat),
    > {
        <RvMap<WireString, u16> as RVType>::wire_decode(bytes, config)
    }

    proof fn lemma_inv_model_wf(a: Self) {
        <RvMap<WireString, u16> as RVType>::lemma_inv_model_wf(a.class_versions);
    }

    proof fn lemma_model_eq_reflexive(a: Seq<(Seq<u8>, u16)>) {
        <RvMap<WireString, u16> as RVType>::lemma_model_eq_reflexive(a);
    }

    proof fn lemma_model_eq_symmetric(a: Seq<(Seq<u8>, u16)>, b: Seq<(Seq<u8>, u16)>) {
        <RvMap<WireString, u16> as RVType>::lemma_model_eq_symmetric(a, b);
    }

    proof fn lemma_model_eq_transitive(
        a: Seq<(Seq<u8>, u16)>,
        b: Seq<(Seq<u8>, u16)>,
        c: Seq<(Seq<u8>, u16)>,
    ) {
        <RvMap<WireString, u16> as RVType>::lemma_model_eq_transitive(a, b, c);
    }

    proof fn lemma_decode_wf(bytes: Seq<u8>, config: WireConfig) {
        <RvMap<WireString, u16> as RVType>::lemma_decode_wf(bytes, config);
    }

    proof fn lemma_roundtrip(a: Self, suffix: Seq<u8>, config: WireConfig) {
        <RvMap<WireString, u16> as RVType>::lemma_roundtrip(a.class_versions, suffix, config);
    }

    fn zero() -> (r: Self) {
        ClassVersionContainer::new()
    }

    fn copy(&self) -> (r: Self) {
        ClassVersionContainer {
            structure_version: self.structure_version,
            class_versions: self.class_versions.copy(),
        }
    }

    fn copy_ref(&self) -> (r: Self) {
        self.copy()
    }

    fn equals(&self, other: &Self) -> (r: bool) {
        self.class_versions.equals(&other.class_versions)
    }

    fn write_to(&self, w: &mut Writer) {
        self.class_versions.write_to(w);
    }

    fn extract_from(&mut self, r: &mut Reader) -> (res: Result<(), DecodeError>)
        ensures
            final(self).structure_version == old(self).structure_version,
    {
        self.class_versions.extract_from(r)
    }
}

} // verus!

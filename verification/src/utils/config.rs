//! The lines of a configuration file.
//!
//! A line holds a name, an equals sign and a value. A line whose first
//! character after any white space is `#` is a comment, and a line without an
//! equals sign says nothing. A name has one value: where it stands on
//! several lines, the last of them counts.

use vstd::prelude::*;


verus! {

/// The characters that are looked for at the ends of a text.
#[derive(Clone, Copy, Debug, PartialEq, Eq, Structural)]
pub enum CharClass {
    /// White space, as Unicode defines it.
    Space,
    /// The double quote.
    Quote,
    /// Everything but the equals sign.
    NotEquals,
}

/// The characters with the Unicode property `White_Space`.
pub open spec fn is_space(c: char) -> bool {
    let n = c as u32;
    ||| 0x09 <= n <= 0x0d
    ||| n == 0x20
    ||| n == 0x85
    ||| n == 0xa0
    ||| n == 0x1680
    ||| 0x2000 <= n <= 0x200a
    ||| n == 0x2028
    ||| n == 0x2029
    ||| n == 0x202f
    ||| n == 0x205f
    ||| n == 0x3000
}

impl CharClass {
    /// Whether a character belongs to the class.
    pub open spec fn has(self, c: char) -> bool {
        match self {
            CharClass::Space => is_space(c),
            CharClass::Quote => c == '"',
            CharClass::NotEquals => c != '=',
        }
    }

    fn holds(self, c: char) -> (r: bool)
        ensures
            r == self.has(c),
    {
        match self {
            CharClass::Space => {
                let n: u32 = c as u32;
                (0x09 <= n && n <= 0x0d) || n == 0x20 || n == 0x85 || n == 0xa0 || n == 0x1680 || (
                0x2000 <= n && n <= 0x200a) || n == 0x2028 || n == 0x2029 || n == 0x202f || n
                    == 0x205f || n == 0x3000
            },
            CharClass::Quote => c == '"',
            CharClass::NotEquals => c != '=',
        }
    }
}

/// The number of characters at the front of `s` that belong to the class.
pub open spec fn leading(s: Seq<char>, class: CharClass) -> nat
    decreases s.len(),
{
    if s.len() > 0 && class.has(s[0]) {
        1 + leading(s.skip(1), class)
    } else {
        0
    }
}

/// The number of characters at the back of `s` that belong to the class.
pub open spec fn trailing(s: Seq<char>, class: CharClass) -> nat
    decreases s.len(),
{
    if s.len() > 0 && class.has(s.last()) {
        1 + trailing(s.drop_last(), class)
    } else {
        0
    }
}

/// The text without the characters of the class at its front and, of what
/// is left, at its back.
pub open spec fn stripped(s: Seq<char>, class: CharClass) -> Seq<char> {
    let front = s.skip(leading(s, class) as int);
    front.take(front.len() - trailing(front, class))
}

/// A line whose first character behind any white space is `#`.
pub open spec fn is_comment(line: Seq<char>) -> bool {
    let first = leading(line, CharClass::Space) as int;
    first < line.len() && line[first] == '#'
}

/// What a line of a configuration file says.
#[derive(Clone, Debug, PartialEq, Eq)]
pub enum ConfigLine {
    /// A comment, or a line without an equals sign.
    Nothing,
    /// A name and its value.
    Entry(String, String),
}

/// The mathematical value of what a line says.
pub enum ConfigLineView {
    Nothing,
    Entry(Seq<char>, Seq<char>),
}

impl View for ConfigLine {
    type V = ConfigLineView;

    open spec fn view(&self) -> ConfigLineView {
        match self {
            ConfigLine::Nothing => ConfigLineView::Nothing,
            ConfigLine::Entry(name, value) => ConfigLineView::Entry(name@, value@),
        }
    }
}

/// The meaning of one line.
///
/// The name is what stands in front of the first equals sign, and the value
/// what stands behind it, both without white space at their ends; the value
/// is then taken out of any double quotes at its ends.
pub open spec fn config_line(line: Seq<char>) -> ConfigLineView {
    let sign = leading(line, CharClass::NotEquals) as int;
    if is_comment(line) || sign >= line.len() {
        ConfigLineView::Nothing
    } else {
        ConfigLineView::Entry(
            stripped(line.take(sign), CharClass::Space),
            stripped(stripped(line.skip(sign + 1), CharClass::Space), CharClass::Quote),
        )
    }
}

/// A run in front of `s` that ends where the class does is the leading run.
proof fn lemma_leading_is(s: Seq<char>, class: CharClass, n: int)
    requires
        0 <= n <= s.len(),
        forall|k: int| 0 <= k < n ==> class.has(#[trigger] s[k]),
        n == s.len() || !class.has(s[n]),
    ensures
        leading(s, class) == n,
    decreases n,
{
    if n > 0 {
        let t = s.skip(1);
        assert(forall|k: int| 0 <= k < n - 1 ==> t[k] == s[k + 1]);
        lemma_leading_is(t, class, n - 1);
    }
}

/// A run at the back of `s` that begins where the class does is the
/// trailing run.
proof fn lemma_trailing_is(s: Seq<char>, class: CharClass, n: int)
    requires
        0 <= n <= s.len(),
        forall|k: int| s.len() - n <= k < s.len() ==> class.has(#[trigger] s[k]),
        n == s.len() || !class.has(s[s.len() - n - 1]),
    ensures
        trailing(s, class) == n,
    decreases n,
{
    if n > 0 {
        let t = s.drop_last();
        assert(forall|k: int| 0 <= k < t.len() ==> t[k] == s[k]);
        lemma_trailing_is(t, class, n - 1);
    }
}

/// Counts the characters of the class in front of `v[from..]`.
fn count_leading(v: &Vec<char>, from: usize, class: CharClass) -> (n: usize)
    requires
        from <= v.len(),
    ensures
        n == leading(v@.skip(from as int), class),
        from + n <= v.len(),
{
    let mut i: usize = from;
    while i < v.len() && class.holds(v[i])
        invariant
            from <= i <= v.len(),
            forall|k: int| from <= k < i ==> class.has(#[trigger] v@[k]),
        decreases v.len() - i,
    {
        i = i + 1;
    }
    proof {
        let s = v@.skip(from as int);
        assert(forall|k: int| 0 <= k < i - from ==> s[k] == v@[from + k]);
        lemma_leading_is(s, class, i - from);
    }
    i - from
}

/// Counts the characters of the class at the back of `v[from..to]`.
fn count_trailing(v: &Vec<char>, from: usize, to: usize, class: CharClass) -> (n: usize)
    requires
        from <= to <= v.len(),
    ensures
        n == trailing(v@.subrange(from as int, to as int), class),
        from + n <= to,
{
    let mut i: usize = to;
    while i > from && class.holds(v[i - 1])
        invariant
            from <= i <= to <= v.len(),
            forall|k: int| i <= k < to ==> class.has(#[trigger] v@[k]),
        decreases i,
    {
        i = i - 1;
    }
    proof {
        let s = v@.subrange(from as int, to as int);
        assert(forall|k: int| 0 <= k < s.len() ==> s[k] == v@[from + k]);
        lemma_trailing_is(s, class, to - i);
    }
    to - i
}

/// The bounds of `v[from..to]` without the class at its ends.
fn strip(v: &Vec<char>, from: usize, to: usize, class: CharClass) -> (r: (usize, usize))
    requires
        from <= to <= v.len(),
    ensures
        from <= r.0 <= r.1 <= to,
        v@.subrange(r.0 as int, r.1 as int) == stripped(v@.subrange(from as int, to as int), class),
{
    let mut a: usize = from;
    while a < to && class.holds(v[a])
        invariant
            from <= a <= to <= v.len(),
            forall|k: int| from <= k < a ==> class.has(#[trigger] v@[k]),
        decreases to - a,
    {
        a = a + 1;
    }
    let back = count_trailing(v, a, to, class);
    proof {
        let s = v@.subrange(from as int, to as int);
        assert(forall|k: int| 0 <= k < s.len() ==> s[k] == v@[from + k]);
        lemma_leading_is(s, class, a - from);
        let front = s.skip((a - from) as int);
        assert(front =~= v@.subrange(a as int, to as int));
        assert(front.take(front.len() - back) =~= v@.subrange(a as int, to - back));
    }
    (a, to - back)
}

/// The characters of a text.
fn chars_of(text: &str) -> (v: Vec<char>)
    ensures
        v@ == text@,
{
    let mut v: Vec<char> = Vec::new();
    for c in it: text.chars()
        invariant
            it.seq() == text@,
            v@ == text@.take(it.index() as int),
    {
        v.push(c);
        assert(v@ =~= text@.take(it.index() + 1));
    }
    assert(text@.take(text@.len() as int) =~= text@);
    v
}

/// The text of `v[from..to]`.
fn text_of(v: &Vec<char>, from: usize, to: usize) -> (text: String)
    requires
        from <= to <= v.len(),
    ensures
        text@ == v@.subrange(from as int, to as int),
{
    let mut text = String::new();
    let mut i: usize = from;
    while i < to
        invariant
            from <= i <= to <= v.len(),
            text@ == v@.subrange(from as int, i as int),
        decreases to - i,
    {
        text.push(v[i]);
        i = i + 1;
        assert(text@ =~= v@.subrange(from as int, i as int));
    }
    text
}

/// Reads one line of a configuration file.
pub fn read_config_line(line: &str) -> (parsed: ConfigLine)
    ensures
        parsed@ == config_line(line@),
{
    let v = chars_of(line);
    let n: usize = v.len();
    assert(v@.skip(0) =~= v@);
    let first = count_leading(&v, 0, CharClass::Space);
    let sign = count_leading(&v, 0, CharClass::NotEquals);
    if (first < n && v[first] == '#') || sign >= n {
        return ConfigLine::Nothing;
    }
    let (name_from, name_to) = strip(&v, 0, sign, CharClass::Space);
    let (from, to) = strip(&v, sign + 1, n, CharClass::Space);
    let (value_from, value_to) = strip(&v, from, to, CharClass::Quote);
    proof {
        assert(v@.subrange(0, sign as int) =~= line@.take(sign as int));
        assert(v@.subrange(sign + 1, n as int) =~= line@.skip(sign + 1));
    }
    ConfigLine::Entry(text_of(&v, name_from, name_to), text_of(&v, value_from, value_to))
}

/// A name with its value.
pub type Entry = (Seq<char>, Seq<char>);

/// The place of the entry of a name: the first place that holds the name, or
/// the length of the list where no place does.
pub open spec fn position_of(entries: Seq<Entry>, name: Seq<char>) -> int
    decreases entries.len(),
{
    if entries.len() == 0 || entries[0].0 == name {
        0
    } else {
        1 + position_of(entries.skip(1), name)
    }
}

/// The value of a name, if the list holds it.
pub open spec fn value_of(entries: Seq<Entry>, name: Seq<char>) -> Option<Seq<char>> {
    let at = position_of(entries, name);
    if at < entries.len() {
        Some(entries[at].1)
    } else {
        None
    }
}

/// The list with the name set to the value: in the place where the name
/// stands, or at the end where it does not stand yet.
pub open spec fn with_entry(entries: Seq<Entry>, name: Seq<char>, value: Seq<char>) -> Seq<
    Entry,
> {
    let at = position_of(entries, name);
    if at < entries.len() {
        entries.update(at, (name, value))
    } else {
        entries.push((name, value))
    }
}

/// No name stands in two places.
pub open spec fn distinct_names(entries: Seq<Entry>) -> bool {
    forall|i: int, j: int|
        0 <= i < j < entries.len() ==> (#[trigger] entries[i]).0 != (#[trigger] entries[j]).0
}

/// The meaning of the lines of a file: each name once, in the order in
/// which the names first stand, with the value of the last line that holds
/// the name.
pub open spec fn config_entries(lines: Seq<Seq<char>>) -> Seq<Entry>
    decreases lines.len(),
{
    if lines.len() == 0 {
        Seq::empty()
    } else {
        let before = config_entries(lines.drop_last());
        match config_line(lines.last()) {
            ConfigLineView::Nothing => before,
            ConfigLineView::Entry(name, value) => with_entry(before, name, value),
        }
    }
}

/// The lines of a list, each by its characters.
pub open spec fn lines_view(lines: Seq<String>) -> Seq<Seq<char>> {
    Seq::new(lines.len(), |i: int| lines[i]@)
}

/// The entries of a list, each by its characters.
pub open spec fn entries_view(entries: Seq<(String, String)>) -> Seq<Entry> {
    Seq::new(entries.len(), |i: int| (entries[i].0@, entries[i].1@))
}

/// A place that holds the name, with none before it that does, is the place
/// of the name; and where no place holds it, its place is the length.
proof fn lemma_position_is(entries: Seq<Entry>, name: Seq<char>, at: int)
    requires
        0 <= at <= entries.len(),
        forall|k: int| 0 <= k < at ==> (#[trigger] entries[k]).0 != name,
        at == entries.len() || entries[at].0 == name,
    ensures
        position_of(entries, name) == at,
    decreases at,
{
    if at > 0 {
        let rest = entries.skip(1);
        assert(forall|k: int| 0 <= k < rest.len() ==> rest[k] == entries[k + 1]);
        lemma_position_is(rest, name, at - 1);
    }
}

/// The place of a name holds the name, and no place before it does.
proof fn lemma_position_holds(entries: Seq<Entry>, name: Seq<char>)
    ensures
        0 <= position_of(entries, name) <= entries.len(),
        position_of(entries, name) < entries.len() ==> entries[position_of(entries, name)].0
            == name,
        forall|k: int| 0 <= k < position_of(entries, name) ==> (#[trigger] entries[k]).0 != name,
    decreases entries.len(),
{
    if entries.len() > 0 && entries[0].0 != name {
        let rest = entries.skip(1);
        lemma_position_holds(rest, name);
        assert(forall|k: int| 0 <= k < rest.len() ==> rest[k] == entries[k + 1]);
        assert forall|k: int| 0 <= k < position_of(entries, name) implies (#[trigger] entries[k]).0
            != name by {
            if k > 0 {
                assert(rest[k - 1] == entries[k]);
            }
        }
    }
}

/// Setting a name keeps the names distinct, gives the name its new value and
/// leaves every other name its own.
pub proof fn lemma_with_entry(entries: Seq<Entry>, name: Seq<char>, value: Seq<char>)
    requires
        distinct_names(entries),
    ensures
        distinct_names(with_entry(entries, name, value)),
        value_of(with_entry(entries, name, value), name) == Some(value),
        forall|other: Seq<char>|
            other != name ==> #[trigger] value_of(with_entry(entries, name, value), other)
                == value_of(entries, other),
{
    let after = with_entry(entries, name, value);
    let at = position_of(entries, name);
    lemma_position_holds(entries, name);
    assert forall|i: int, j: int| 0 <= i < j < after.len() implies (#[trigger] after[i]).0 != (
    #[trigger] after[j]).0 by {
        if at < entries.len() {
            assert(after[i].0 == entries[i].0 && after[j].0 == entries[j].0);
        } else if j == entries.len() {
            assert(after[i] == entries[i]);
        } else {
            assert(after[i] == entries[i] && after[j] == entries[j]);
        }
    }
    lemma_position_is(after, name, at);
    assert forall|other: Seq<char>| other != name implies #[trigger] value_of(after, other)
        == value_of(entries, other) by {
        let p = position_of(entries, other);
        lemma_position_holds(entries, other);
        assert forall|k: int| 0 <= k < p implies (#[trigger] after[k]).0 != other by {
            assert(after[k].0 == entries[k].0 || after[k].0 == name);
        }
        if p < entries.len() {
            assert(after[p] == entries[p]);
            lemma_position_is(after, other, p);
        } else {
            assert forall|k: int| 0 <= k < after.len() implies (#[trigger] after[k]).0
                != other by {
                if k < entries.len() {
                    assert(after[k].0 == entries[k].0 || after[k].0 == name);
                }
            }
            lemma_position_is(after, other, after.len() as int);
        }
    }
}

/// A name has one value, and a later line wins: no name stands twice among
/// the entries of a file, and when a line is added to the file, the name on
/// it has the value on it and every other name keeps its value.
pub proof fn lemma_later_line_wins(lines: Seq<Seq<char>>, line: Seq<char>)
    ensures
        distinct_names(config_entries(lines)),
        distinct_names(config_entries(lines.push(line))),
        match config_line(line) {
            ConfigLineView::Nothing => config_entries(lines.push(line)) == config_entries(lines),
            ConfigLineView::Entry(name, value) => {
                &&& value_of(config_entries(lines.push(line)), name) == Some(value)
                &&& forall|other: Seq<char>|
                    other != name ==> #[trigger] value_of(config_entries(lines.push(line)), other)
                        == value_of(config_entries(lines), other)
            },
        },
    decreases lines.len(),
{
    if lines.len() > 0 {
        lemma_later_line_wins(lines.drop_last(), lines.last());
        assert(lines.drop_last().push(lines.last()) =~= lines);
    }
    assert(lines.push(line).drop_last() =~= lines);
    assert(lines.push(line).last() == line);
    match config_line(line) {
        ConfigLineView::Nothing => {},
        ConfigLineView::Entry(name, value) => {
            lemma_with_entry(config_entries(lines), name, value);
        },
    }
}

/// Finds the place of a name among the entries.
fn find(entries: &Vec<(String, String)>, name: &String) -> (at: usize)
    ensures
        at == position_of(entries_view(entries@), name@),
        at <= entries.len(),
{
    let mut i: usize = 0;
    while i < entries.len() && !(entries[i].0 == *name)
        invariant
            i <= entries.len(),
            forall|k: int| 0 <= k < i ==> (#[trigger] entries_view(entries@)[k]).0 != name@,
        decreases entries.len() - i,
    {
        i = i + 1;
    }
    proof {
        lemma_position_is(entries_view(entries@), name@, i as int);
    }
    i
}

/// The value of a name among the entries of a file.
pub fn config_value<'a>(entries: &'a Vec<(String, String)>, name: &String) -> (value: Option<
    &'a String,
>)
    ensures
        match value {
            Some(text) => value_of(entries_view(entries@), name@) == Some(text@),
            None => value_of(entries_view(entries@), name@) is None,
        },
{
    let at = find(entries, name);
    if at < entries.len() {
        Some(&entries[at].1)
    } else {
        None
    }
}

/// Reads the lines of a configuration file.
///
/// Each name comes once, with the value of the last line that holds it.
pub fn read_config(lines: &Vec<String>) -> (entries: Vec<(String, String)>)
    ensures
        entries_view(entries@) == config_entries(lines_view(lines@)),
        distinct_names(entries_view(entries@)),
{
    let mut entries: Vec<(String, String)> = Vec::new();
    let mut i: usize = 0;
    assert(lines_view(lines@).take(0) =~= Seq::<Seq<char>>::empty());
    assert(entries_view(entries@) =~= Seq::<Entry>::empty());
    while i < lines.len()
        invariant
            i <= lines.len(),
            entries_view(entries@) == config_entries(lines_view(lines@).take(i as int)),
        decreases lines.len() - i,
    {
        let ghost upto = lines_view(lines@).take(i + 1);
        proof {
            assert(upto.drop_last() =~= lines_view(lines@).take(i as int));
            assert(upto.last() == lines@[i as int]@);
        }
        match read_config_line(lines[i].as_str()) {
            ConfigLine::Nothing => {},
            ConfigLine::Entry(name, value) => {
                let ghost before = entries_view(entries@);
                let at = find(&entries, &name);
                if at < entries.len() {
                    entries[at] = (name, value);
                    assert(entries_view(entries@) =~= before.update(at as int, (name@, value@)));
                } else {
                    entries.push((name, value));
                    assert(entries_view(entries@) =~= before.push((name@, value@)));
                }
            },
        }
        i = i + 1;
    }
    assert(lines_view(lines@).take(i as int) =~= lines_view(lines@));
    proof {
        lemma_distinct(lines_view(lines@));
    }
    entries
}

/// No name stands twice among the entries of a file.
proof fn lemma_distinct(lines: Seq<Seq<char>>)
    ensures
        distinct_names(config_entries(lines)),
    decreases lines.len(),
{
    if lines.len() > 0 {
        lemma_distinct(lines.drop_last());
        match config_line(lines.last()) {
            ConfigLineView::Nothing => {},
            ConfigLineView::Entry(name, value) => {
                lemma_with_entry(config_entries(lines.drop_last()), name, value);
            },
        }
    }
}

} // verus!

//! What the views of one log file share: the selected line and the columns
//! on display.

use crate::log_file_reader::LineNumber;
use vstd::prelude::*;

verus! {

/// Where log lines come from.
#[derive(Clone, Copy, Debug, PartialEq, Eq, Structural)]
pub struct LogSource {}

/// A colour by its red, green and blue parts.
#[derive(Clone, Copy, Debug, PartialEq, Eq, Structural)]
pub struct Rgb {
    pub r: u8,
    pub g: u8,
    pub b: u8,
}

/// In which colour the text of a column is drawn.
#[derive(Clone, Copy, Debug, PartialEq, Eq, Structural)]
pub enum ColumnTextColor {
    /// Always in the given colour.
    Color(Rgb),
    /// In the colour of the entry's severity.
    BySeverity,
}

/// How a column is drawn.
#[derive(Clone, Copy, Debug, PartialEq, Eq, Structural)]
pub struct ColumnStyle {
    /// The colour of the text.
    pub color: ColumnTextColor,
    /// Whether the column takes the width of its content.
    pub auto_size: bool,
    /// Whether white space around the text is left out.
    pub trim: bool,
}

/// The style of a column that has none of its own, as a specification.
pub open spec fn default_column_style() -> ColumnStyle {
    ColumnStyle {
        color: ColumnTextColor::Color(Rgb { r: 255, g: 255, b: 255 }),
        auto_size: false,
        trim: true,
    }
}

impl Default for ColumnStyle {
    /// White text, a width that the user sets, and no white space around
    /// the text.
    fn default() -> (style: Self)
        ensures
            style == default_column_style(),
    {
        ColumnStyle {
            color: ColumnTextColor::Color(Rgb { r: 255, g: 255, b: 255 }),
            auto_size: false,
            trim: true,
        }
    }
}

/// How much room a column gets in the table.
#[derive(Clone, Copy, Debug, PartialEq, Eq, Structural)]
pub enum ColumnLayout {
    /// The column takes what the others leave.
    Remainder,
    /// The column is as wide as its content.
    Auto,
    /// The column has a width that the user can change.
    Resizable,
}

/// The severity that the field `level` of an entry names.
#[derive(Clone, Copy, Debug, PartialEq, Eq, Structural)]
pub enum Severity {
    Error,
    Warning,
    Info,
    Debug,
    Fatal,
    /// The level is none of those above.
    Unknown,
}

/// The level that an entry without the field `level` is taken to have.
pub const DEFAULT_LEVEL: &'static str = "INFO";

/// The severity that `level` names, as a specification.
pub open spec fn severity_of(level: Seq<char>) -> Severity {
    if level == "ERROR"@ {
        Severity::Error
    } else if level == "WARNING"@ {
        Severity::Warning
    } else if level == "INFO"@ {
        Severity::Info
    } else if level == "DEBUG"@ {
        Severity::Debug
    } else if level == "FATAL"@ {
        Severity::Fatal
    } else {
        Severity::Unknown
    }
}

impl Severity {
    /// The severity that `level` names: one of the five levels, written in
    /// capitals, or `Unknown`.
    pub fn from_level(level: &str) -> (severity: Severity)
        ensures
            severity == severity_of(level@),
    {
        let level = level.to_owned();
        if level == "ERROR".to_owned() {
            Severity::Error
        } else if level == "WARNING".to_owned() {
            Severity::Warning
        } else if level == "INFO".to_owned() {
            Severity::Info
        } else if level == "DEBUG".to_owned() {
            Severity::Debug
        } else if level == "FATAL".to_owned() {
            Severity::Fatal
        } else {
            Severity::Unknown
        }
    }
}

/// The position of the first column named `key` at or behind `from`, or the
/// number of columns if there is none.
pub open spec fn column_position(names: Seq<Seq<char>>, key: Seq<char>, from: int) -> int
    decreases names.len() - from,
{
    if from >= names.len() {
        names.len() as int
    } else if from >= 0 && names[from] == key {
        from
    } else {
        column_position(names, key, from + 1)
    }
}

/// `column_position` finds a column named `key`, and none stands before it.
pub proof fn lemma_column_position(names: Seq<Seq<char>>, key: Seq<char>, from: int)
    requires
        0 <= from,
    ensures
        from <= column_position(names, key, from) || column_position(names, key, from)
            == names.len(),
        column_position(names, key, from) <= names.len(),
        column_position(names, key, from) < names.len() ==> names[column_position(
            names,
            key,
            from,
        )] == key,
        forall|i: int| from <= i < column_position(names, key, from) ==> #[trigger] names[i] != key,
    decreases names.len() - from,
{
    if from < names.len() && names[from] != key {
        lemma_column_position(names, key, from + 1);
    }
}

/// The columns without those named in `removed`.
pub open spec fn columns_without(names: Seq<Seq<char>>, removed: Seq<Seq<char>>) -> Seq<
    Seq<char>,
> {
    names.filter(|name: Seq<char>| !removed.contains(name))
}

/// The columns after the column `moved` was dropped on the column `target`:
/// `moved` leaves its place and goes before `target`, or behind it. Where no
/// column is named `target` once `moved` has left, the columns stay as they
/// are.
pub open spec fn columns_after_move(
    names: Seq<Seq<char>>,
    moved: Seq<char>,
    target: Seq<char>,
    behind: bool,
) -> Seq<Seq<char>> {
    let from = column_position(names, moved, 0);
    let rest = if from < names.len() {
        names.remove(from)
    } else {
        names
    };
    let to = column_position(rest, target, 0);
    if to < rest.len() {
        rest.insert(
            if behind {
                to + 1
            } else {
                to
            },
            moved,
        )
    } else {
        names
    }
}

/// The position of the first column named `key`, if there is one.
pub fn find_column(columns: &Vec<String>, key: &str) -> (position: Option<usize>)
    ensures
        match position {
            Some(found) => found == column_position(column_names(columns@), key@, 0) && found
                < columns.len(),
            None => column_position(column_names(columns@), key@, 0) == columns.len(),
        },
{
    let wanted = key.to_owned();
    let ghost names = column_names(columns@);
    let mut i: usize = 0;
    while i < columns.len()
        invariant
            i <= columns.len(),
            wanted@ == key@,
            names == column_names(columns@),
            column_position(names, key@, 0) == column_position(names, key@, i as int),
        decreases columns.len() - i,
    {
        assert(names[i as int] == columns@[i as int]@);
        if columns[i] == wanted {
            assert(column_position(names, key@, i as int) == i);
            return Some(i);
        }
        assert(column_position(names, key@, i as int) == column_position(names, key@, i + 1));
        i = i + 1;
    }
    None
}

/// The names of `columns`, as sequences of characters.
pub open spec fn column_names(columns: Seq<String>) -> Seq<Seq<char>> {
    columns.map_values(|column: String| column@)
}

/// The state that the tabs of one log file have in common.
pub struct LogViewerState {
    /// The line that is selected in the tabs that follow the selection.
    pub selected_line_num: Option<LineNumber>,
    /// The fields shown as columns, from left to right.
    pub displayed_columns: Vec<String>,
    /// The styles of the columns that have one of their own, by name. Where
    /// a name stands twice, the first style counts.
    pub column_styles: Vec<(String, ColumnStyle)>,
}

/// The position of the first style for the column `key` at or behind `from`,
/// or the number of styles if there is none.
pub open spec fn style_position(
    styles: Seq<(String, ColumnStyle)>,
    key: Seq<char>,
    from: int,
) -> int
    decreases styles.len() - from,
{
    if from >= styles.len() {
        styles.len() as int
    } else if from >= 0 && styles[from].0@ == key {
        from
    } else {
        style_position(styles, key, from + 1)
    }
}

/// Whether no column has two styles: what a map from names to styles holds
/// of itself.
pub open spec fn styles_are_distinct(styles: Seq<(String, ColumnStyle)>) -> bool {
    forall|i: int, j: int| 0 <= i < j < styles.len() ==> styles[i].0@ != styles[j].0@
}

/// `style_position` finds a style for `key`, and none stands before it.
pub proof fn lemma_style_position(styles: Seq<(String, ColumnStyle)>, key: Seq<char>, from: int)
    requires
        0 <= from,
    ensures
        from <= style_position(styles, key, from) <= styles.len() || style_position(
            styles,
            key,
            from,
        ) == styles.len(),
        style_position(styles, key, from) < styles.len() ==> styles[style_position(
            styles,
            key,
            from,
        )].0@ == key,
        forall|i: int|
            from <= i < style_position(styles, key, from) ==> (#[trigger] styles[i]).0@ != key,
    decreases styles.len() - from,
{
    if from < styles.len() && styles[from].0@ != key {
        lemma_style_position(styles, key, from + 1);
    }
}

/// The style of the column `key`: its own, or that of a column without one.
pub open spec fn style_of(styles: Seq<(String, ColumnStyle)>, key: Seq<char>) -> ColumnStyle {
    let position = style_position(styles, key, 0);
    if position < styles.len() {
        styles[position].1
    } else {
        default_column_style()
    }
}

impl LogViewerState {
    /// The names of the columns on display, from left to right.
    pub open spec fn columns(&self) -> Seq<Seq<char>> {
        column_names(self.displayed_columns@)
    }

    /// Whether a column named `key` is on display, as a specification.
    pub open spec fn shows(&self, key: Seq<char>) -> bool {
        self.columns().contains(key)
    }

    /// Whether the state is that of a file that was just opened: no line
    /// selected, and the columns `t`, `tag` and `message`, each with a style
    /// of its own. The timestamp is white and as wide as its content, the
    /// tag is khaki, and the message has the colour of its severity.
    pub open spec fn is_initial(&self) -> bool {
        &&& self.selected_line_num is None
        &&& self.columns() == seq!["t"@, "tag"@, "message"@]
        &&& self.column_styles@.len() == 3
        &&& self.column_styles@[0].0@ == "t"@
        &&& self.column_styles@[0].1 == (ColumnStyle {
            color: ColumnTextColor::Color(Rgb { r: 255, g: 255, b: 255 }),
            auto_size: true,
            trim: true,
        })
        &&& self.column_styles@[1].0@ == "tag"@
        &&& self.column_styles@[1].1 == (ColumnStyle {
            color: ColumnTextColor::Color(Rgb { r: 240, g: 230, b: 140 }),
            auto_size: false,
            trim: true,
        })
        &&& self.column_styles@[2].0@ == "message"@
        &&& self.column_styles@[2].1 == (ColumnStyle {
            color: ColumnTextColor::BySeverity,
            auto_size: false,
            trim: true,
        })
    }

    /// Whether no column has two styles.
    pub open spec fn has_distinct_styles(&self) -> bool {
        styles_are_distinct(self.column_styles@)
    }

    /// The style of the column `key`, as a specification.
    pub open spec fn spec_column_style(&self, key: Seq<char>) -> ColumnStyle {
        style_of(self.column_styles@, key)
    }

    /// The state of a file that was just opened.
    pub fn new() -> (state: Self)
        ensures
            state.is_initial(),
            state.has_distinct_styles(),
    {
        let mut displayed_columns: Vec<String> = Vec::new();
        displayed_columns.push("t".to_owned());
        displayed_columns.push("tag".to_owned());
        displayed_columns.push("message".to_owned());
        let mut column_styles: Vec<(String, ColumnStyle)> = Vec::new();
        column_styles.push(
            (
                "t".to_owned(),
                ColumnStyle {
                    color: ColumnTextColor::Color(Rgb { r: 255, g: 255, b: 255 }),
                    auto_size: true,
                    trim: true,
                },
            ),
        );
        column_styles.push(
            (
                "tag".to_owned(),
                ColumnStyle {
                    color: ColumnTextColor::Color(Rgb { r: 240, g: 230, b: 140 }),
                    auto_size: false,
                    trim: true,
                },
            ),
        );
        column_styles.push(
            (
                "message".to_owned(),
                ColumnStyle { color: ColumnTextColor::BySeverity, auto_size: false, trim: true },
            ),
        );
        let state = LogViewerState { selected_line_num: None, displayed_columns, column_styles };
        proof {
            assert(state.columns() =~= seq!["t"@, "tag"@, "message"@]);
            reveal_strlit("t");
            reveal_strlit("tag");
            reveal_strlit("message");
            assert("t"@.len() == 1 && "tag"@.len() == 3 && "message"@.len() == 7);
        }
        state
    }

    /// The style of the column `key`: its own, or that of a column without
    /// one.
    pub fn column_style(&self, key: &str) -> (style: ColumnStyle)
        ensures
            style == style_of(self.column_styles@, key@),
    {
        let wanted = key.to_owned();
        let mut i: usize = 0;
        while i < self.column_styles.len()
            invariant
                i <= self.column_styles.len(),
                wanted@ == key@,
                style_position(self.column_styles@, key@, 0) == style_position(
                    self.column_styles@,
                    key@,
                    i as int,
                ),
            decreases self.column_styles.len() - i,
        {
            if self.column_styles[i].0 == wanted {
                assert(style_position(self.column_styles@, key@, i as int) == i);
                return self.column_styles[i].1;
            }
            assert(style_position(self.column_styles@, key@, i as int) == style_position(
                self.column_styles@,
                key@,
                i + 1,
            ));
            i = i + 1;
        }
        ColumnStyle::default()
    }

    /// Gives the column `key` the style `style`, in place of the one it had.
    /// The styles of the other columns stay, and no column gets two.
    pub fn set_column_style(&mut self, key: &str, style: ColumnStyle)
        requires
            old(self).has_distinct_styles(),
        ensures
            final(self).has_distinct_styles(),
            final(self).spec_column_style(key@) == style,
            forall|other: Seq<char>|
                other != key@ ==> #[trigger] final(self).spec_column_style(other) == old(
                    self,
                ).spec_column_style(other),
            final(self).selected_line_num == old(self).selected_line_num,
            final(self).displayed_columns == old(self).displayed_columns,
    {
        let ghost before = self.column_styles@;
        let wanted = key.to_owned();
        let mut i: usize = 0;
        while i < self.column_styles.len()
            invariant
                i <= self.column_styles.len(),
                wanted@ == key@,
                self.column_styles@ == before,
                before == old(self).column_styles@,
                styles_are_distinct(before),
                self.selected_line_num == old(self).selected_line_num,
                self.displayed_columns == old(self).displayed_columns,
                forall|k: int| 0 <= k < i ==> (#[trigger] before[k]).0@ != key@,
            decreases self.column_styles.len() - i,
        {
            if self.column_styles[i].0 == wanted {
                let name = wanted;
                self.column_styles.set(i, (name, style));
                proof {
                    let after = self.column_styles@;
                    assert(after =~= before.update(i as int, (name, style)));
                    assert forall|k: int| 0 <= k < after.len() implies (#[trigger] after[k]).0@
                        == before[k].0@ by {}
                    lemma_style_position(before, key@, 0);
                    assert(style_position(before, key@, 0) == i) by {
                        if style_position(before, key@, 0) > i {
                            assert(before[i as int].0@ == key@);
                        }
                    }
                    lemma_same_names_same_position(before, after, key@, 0);
                    assert forall|other: Seq<char>| other != key@ implies #[trigger] style_of(
                        after,
                        other,
                    ) == style_of(before, other) by {
                        lemma_same_names_same_position(before, after, other, 0);
                        lemma_style_position(before, other, 0);
                        let at = style_position(before, other, 0);
                        if at < before.len() {
                            assert(before[at].0@ == other);
                            assert(at != i);
                            assert(after[at] == before[at]);
                        }
                    }
                }
                return ;
            }
            i = i + 1;
        }
        proof {
            let after = before.push((wanted, style));
            lemma_position_behind_the_others(before, key@, wanted, style, 0);
            assert(after[before.len() as int] == (wanted, style));
            assert forall|other: Seq<char>| other != key@ implies #[trigger] style_of(
                after,
                other,
            ) == style_of(before, other) by {
                lemma_position_of_other_names(before, other, wanted, style, 0);
                let at = style_position(before, other, 0);
                if at < before.len() {
                    lemma_style_position(before, other, 0);
                    assert(after[at] == before[at]);
                }
            }
            assert forall|j: int, k: int| 0 <= j < k < after.len() implies after[j].0@
                != after[k].0@ by {
                if k < before.len() {
                    assert(before[j].0@ != before[k].0@);
                } else {
                    assert(before[j].0@ != key@);
                }
            }
        }
        self.column_styles.push((wanted, style));
    }

    /// Whether a column named `key` is on display.
    pub fn is_column_shown(&self, key: &str) -> (shown: bool)
        ensures
            shown == self.shows(key@),
    {
        let found = find_column(&self.displayed_columns, key);
        proof {
            let names = self.columns();
            lemma_column_position(names, key@, 0);
            if names.contains(key@) {
                let k = choose|k: int| 0 <= k < names.len() && names[k] == key@;
                assert(column_position(names, key@, 0) <= k);
            }
        }
        found.is_some()
    }

    /// Puts the column `key` behind the others, unless it is on display
    /// already. Returns whether it was added.
    pub fn add_column(&mut self, key: &str) -> (added: bool)
        ensures
            added == !old(self).shows(key@),
            added ==> final(self).columns() == old(self).columns().push(key@),
            !added ==> final(self).displayed_columns == old(self).displayed_columns,
            final(self).selected_line_num == old(self).selected_line_num,
            final(self).column_styles == old(self).column_styles,
    {
        if self.is_column_shown(key) {
            false
        } else {
            let column = key.to_owned();
            proof {
                assert(column_names(self.displayed_columns@.push(column)) =~= column_names(
                    self.displayed_columns@,
                ).push(key@));
            }
            self.displayed_columns.push(column);
            true
        }
    }

    /// Takes the columns named in `columns_to_remove` off display. Returns
    /// whether there was anything to remove.
    pub fn remove_columns(&mut self, columns_to_remove: &Vec<String>) -> (asked: bool)
        ensures
            asked == (columns_to_remove.len() > 0),
            final(self).columns() == columns_without(
                old(self).columns(),
                column_names(columns_to_remove@),
            ),
            final(self).selected_line_num == old(self).selected_line_num,
            final(self).column_styles == old(self).column_styles,
    {
        let ghost names = column_names(self.displayed_columns@);
        let ghost removed = column_names(columns_to_remove@);
        let ghost keep = |name: Seq<char>| !removed.contains(name);
        let mut kept: Vec<String> = Vec::new();
        let mut i: usize = 0;
        proof {
            reveal(Seq::filter);
            assert(names.take(0) =~= Seq::<Seq<char>>::empty());
            assert(column_names(kept@) =~= names.take(0).filter(keep));
        }
        while i < self.displayed_columns.len()
            invariant
                i <= self.displayed_columns.len(),
                names == column_names(self.displayed_columns@),
                removed == column_names(columns_to_remove@),
                keep == |name: Seq<char>| !removed.contains(name),
                column_names(kept@) == names.take(i as int).filter(keep),
            decreases self.displayed_columns.len() - i,
        {
            let column = self.displayed_columns[i].clone();
            let listed = find_column(columns_to_remove, column.as_str());
            proof {
                reveal(Seq::filter);
                lemma_column_position(removed, column@, 0);
                if removed.contains(column@) {
                    let k = choose|k: int| 0 <= k < removed.len() && removed[k] == column@;
                    assert(column_position(removed, column@, 0) <= k);
                }
                assert(listed is Some == removed.contains(column@));
                assert(names.take(i + 1).drop_last() =~= names.take(i as int));
                assert(names.take(i + 1).last() == column@);
                assert(column_names(kept@.push(column)) =~= column_names(kept@).push(column@));
            }
            if listed.is_none() {
                kept.push(column);
            }
            i = i + 1;
        }
        proof {
            assert(names.take(i as int) =~= names);
        }
        self.displayed_columns = kept;
        columns_to_remove.len() > 0
    }

    /// Moves the column `moved` to the column `target`, on which it was
    /// dropped: before it, or behind it.
    pub fn move_column(&mut self, moved: &str, target: &str, behind: bool)
        ensures
            final(self).columns() == columns_after_move(
                old(self).columns(),
                moved@,
                target@,
                behind,
            ),
            final(self).selected_line_num == old(self).selected_line_num,
            final(self).column_styles == old(self).column_styles,
    {
        let ghost names = column_names(self.displayed_columns@);
        match find_column(&self.displayed_columns, moved) {
            Some(from) => {
                proof {
                    lemma_column_position(names, moved@, 0);
                }
                let column = self.displayed_columns.remove(from);
                let ghost rest = column_names(self.displayed_columns@);
                proof {
                    assert(rest =~= names.remove(from as int));
                    assert(column@ == moved@);
                }
                let place = match find_column(&self.displayed_columns, target) {
                    Some(to) => if behind {
                        to + 1
                    } else {
                        to
                    },
                    None => from,
                };
                proof {
                    assert(column_names(self.displayed_columns@.insert(place as int, column))
                        =~= rest.insert(place as int, moved@));
                    assert(names.remove(from as int).insert(from as int, moved@) =~= names);
                }
                self.displayed_columns.insert(place, column);
            },
            None => {
                if let Some(to) = find_column(&self.displayed_columns, target) {
                    let place = if behind {
                        to + 1
                    } else {
                        to
                    };
                    let column = moved.to_owned();
                    proof {
                        assert(column_names(self.displayed_columns@.insert(place as int, column))
                            =~= names.insert(place as int, moved@));
                    }
                    self.displayed_columns.insert(place, column);
                }
            },
        }
    }

    /// How much room the column at `position` gets: the last column takes
    /// what is left, and the others go by `style`.
    pub fn column_layout(&self, position: usize, style: &ColumnStyle) -> (layout: ColumnLayout)
        ensures
            layout == (if position + 1 >= self.displayed_columns@.len() {
                ColumnLayout::Remainder
            } else if style.auto_size {
                ColumnLayout::Auto
            } else {
                ColumnLayout::Resizable
            }),
    {
        if position >= self.displayed_columns.len() || position == self.displayed_columns.len()
            - 1 {
            ColumnLayout::Remainder
        } else if style.auto_size {
            ColumnLayout::Auto
        } else {
            ColumnLayout::Resizable
        }
    }
}

/// Two lists of styles with the same names in the same places give every
/// name the same position.
proof fn lemma_same_names_same_position(
    first: Seq<(String, ColumnStyle)>,
    second: Seq<(String, ColumnStyle)>,
    key: Seq<char>,
    from: int,
)
    requires
        first.len() == second.len(),
        forall|k: int| 0 <= k < first.len() ==> (#[trigger] first[k]).0@ == second[k].0@,
    ensures
        style_position(first, key, from) == style_position(second, key, from),
    decreases first.len() - from,
{
    if from < first.len() {
        if from >= 0 {
            assert(first[from].0@ == second[from].0@);
        }
        lemma_same_names_same_position(first, second, key, from + 1);
    }
}

/// A style that is put behind styles of other names is found there.
proof fn lemma_position_behind_the_others(
    styles: Seq<(String, ColumnStyle)>,
    key: Seq<char>,
    name: String,
    style: ColumnStyle,
    from: int,
)
    requires
        0 <= from <= styles.len(),
        name@ == key,
        forall|k: int| 0 <= k < styles.len() ==> (#[trigger] styles[k]).0@ != key,
    ensures
        style_position(styles.push((name, style)), key, from) == styles.len(),
    decreases styles.len() - from,
{
    let longer = styles.push((name, style));
    if from < styles.len() {
        assert(longer[from] == styles[from]);
        lemma_position_behind_the_others(styles, key, name, style, from + 1);
    } else {
        assert(longer[from].0@ == key);
    }
}

/// A style that is put behind the others changes nothing for other names.
proof fn lemma_position_of_other_names(
    styles: Seq<(String, ColumnStyle)>,
    other: Seq<char>,
    name: String,
    style: ColumnStyle,
    from: int,
)
    requires
        0 <= from <= styles.len(),
        name@ != other,
    ensures
        style_position(styles, other, from) < styles.len() ==> style_position(
            styles.push((name, style)),
            other,
            from,
        ) == style_position(styles, other, from),
        style_position(styles, other, from) >= styles.len() ==> style_position(
            styles.push((name, style)),
            other,
            from,
        ) == styles.len() + 1,
    decreases styles.len() - from,
{
    let longer = styles.push((name, style));
    if from < styles.len() {
        assert(longer[from] == styles[from]);
        lemma_position_of_other_names(styles, other, name, style, from + 1);
    } else {
        assert(longer[from].0@ != other);
        assert(style_position(longer, other, from + 1) == longer.len());
    }
}

impl Default for LogViewerState {
    fn default() -> (state: Self)
        ensures
            state.is_initial(),
            state.has_distinct_styles(),
    {
        Self::new()
    }
}

} // verus!

use vstd::prelude::*;
use vstd::string::StrSliceExecFns;
use vstd::string::StringExecFns;
use crate::debug::runtime_reporter::insert_line;
use crate::debug::runtime_reporter::items_view;
use crate::debug::runtime_reporter::lemma_insert_line_at;
use crate::debug::runtime_reporter::ReportItem;
use crate::debug::runtime_reporter::ReportLine;

verus! {

/// The number of groups that a report shows at most.
pub const PARENTS_LIMIT: usize = 10;

/// The number of lines that a group shows at most below its first.
pub const CHILDREN_LIMIT: usize = 5;

/// One line below the first line of a group.
pub struct ChildLine {
    /// The last part of the span's name.
    pub name: String,
    pub last: u128,
    pub avg: u128,
}

/// A group of a report: the spans whose names begin with the same part.
pub struct GroupedLines {
    /// The part with which the names of the group begin.
    pub root: String,
    /// The time of the last run of the span that is called like the group; nothing where
    /// no span is.
    pub last: u128,
    /// The mean time of that span.
    pub avg: u128,
    pub children: Vec<ChildLine>,
}

/// A group as plain values.
pub struct GroupView {
    pub root: Seq<char>,
    pub last: u128,
    pub avg: u128,
    pub children: Seq<ReportLine>,
}

impl View for ChildLine {
    type V = ReportLine;

    open spec fn view(&self) -> ReportLine {
        ReportLine { name: self.name@, last: self.last, avg: self.avg }
    }
}

impl View for GroupedLines {
    type V = GroupView;

    open spec fn view(&self) -> GroupView {
        GroupView {
            root: self.root@,
            last: self.last,
            avg: self.avg,
            children: Seq::new(self.children@.len(), |i: int| self.children@[i]@),
        }
    }
}

/// The groups of a report as plain values.
pub open spec fn groups_view(groups: Seq<GroupedLines>) -> Seq<GroupView> {
    Seq::new(groups.len(), |i: int| groups[i]@)
}

/// Whether the two characters from `at` on are the separator `::`.
pub open spec fn separator_at(name: Seq<char>, at: int) -> bool {
    0 <= at && at + 1 < name.len() && name[at] == ':' && name[at + 1] == ':'
}

/// The place of the first separator from `from` on; the length of the name where there
/// is none.
pub open spec fn first_separator(name: Seq<char>, from: int) -> int
    decreases name.len() - from,
{
    if from < 0 || from + 1 >= name.len() {
        name.len() as int
    } else if separator_at(name, from) {
        from
    } else {
        first_separator(name, from + 1)
    }
}

/// The part of a name before its first separator; the whole name where it has none.
pub open spec fn root_of(name: Seq<char>) -> Seq<char> {
    name.subrange(0, first_separator(name, 0))
}

/// Where the last part of a name begins, reading from `from` on with the last part so
/// far beginning at `start`: separators are found from left to right, each behind the
/// one before.
pub open spec fn last_part_start(name: Seq<char>, from: int, start: int) -> int
    decreases name.len() - from,
{
    if from < 0 || from + 1 >= name.len() {
        start
    } else if separator_at(name, from) {
        last_part_start(name, from + 2, from + 2)
    } else {
        last_part_start(name, from + 1, start)
    }
}

/// The part of a name behind its last separator; the whole name where it has none.
pub open spec fn short_of(name: Seq<char>) -> Seq<char> {
    name.subrange(last_part_start(name, 0, 0), name.len() as int)
}

/// The lines ordered by the time of the last run, the longest first; lines whose runs
/// took equally long keep their order.
pub open spec fn sort_lines(lines: Seq<ReportLine>) -> Seq<ReportLine>
    decreases lines.len(),
{
    if lines.len() == 0 {
        Seq::empty()
    } else {
        insert_line(sort_lines(lines.drop_last()), lines.last())
    }
}

/// Whether one of the lines has the name `name`.
pub open spec fn has_name(lines: Seq<ReportLine>, name: Seq<char>) -> bool {
    exists|i: int| 0 <= i < lines.len() && (#[trigger] lines[i]).name == name
}

/// The first of the lines that has the name `name`, from `from` on.
pub open spec fn first_named(lines: Seq<ReportLine>, name: Seq<char>, from: int) -> Option<ReportLine>
    decreases lines.len() - from,
{
    if from < 0 || from >= lines.len() {
        None
    } else if lines[from].name == name {
        Some(lines[from])
    } else {
        first_named(lines, name, from + 1)
    }
}

/// The first line of the group `root`: the times of the span that is called like the
/// group, and nothing where no span is.
pub open spec fn header_of(lines: Seq<ReportLine>, root: Seq<char>) -> ReportLine {
    match first_named(lines, root, 0) {
        Some(l) => ReportLine { name: root, last: l.last, avg: l.avg },
        None => ReportLine { name: root, last: 0, avg: 0 },
    }
}

/// The first lines of the groups of the first `n` lines, in the order in which the
/// groups first occur.
pub open spec fn headers_below(lines: Seq<ReportLine>, n: nat) -> Seq<ReportLine>
    decreases n,
{
    if n == 0 {
        Seq::empty()
    } else {
        let before = headers_below(lines, (n - 1) as nat);
        let root = root_of(lines[n - 1].name);
        if has_name(before, root) {
            before
        } else {
            before.push(header_of(lines, root))
        }
    }
}

/// The lines among the first `n` that belong to the group `root` without being its
/// first line, in their order.
pub open spec fn children_below(lines: Seq<ReportLine>, root: Seq<char>, n: nat) -> Seq<ReportLine>
    decreases n,
{
    if n == 0 {
        Seq::empty()
    } else {
        let before = children_below(lines, root, (n - 1) as nat);
        let l = lines[n - 1];
        if root_of(l.name) == root && l.name != root {
            before.push(l)
        } else {
            before
        }
    }
}

/// The first `limit` of the lines, or all of them where they are fewer.
pub open spec fn first_few(lines: Seq<ReportLine>, limit: nat) -> Seq<ReportLine> {
    if lines.len() <= limit {
        lines
    } else {
        lines.subrange(0, limit as int)
    }
}

/// A line with only the last part of its name.
pub open spec fn shortened(l: ReportLine) -> ReportLine {
    ReportLine { name: short_of(l.name), ..l }
}

/// The group with the first line `header`: below it the five lines of the group with
/// the longest last runs, the longest first, each under the last part of its name.
pub open spec fn group_of(lines: Seq<ReportLine>, header: ReportLine) -> GroupView {
    let chosen = first_few(sort_lines(children_below(lines, header.name, lines.len())), 5);
    GroupView {
        root: header.name,
        last: header.last,
        avg: header.avg,
        children: Seq::new(chosen.len(), |i: int| shortened(chosen[i])),
    }
}

/// The report in groups: the lines are grouped by the first part of their names, the
/// ten groups whose first lines have the longest last runs are kept, the longest first.
pub open spec fn grouped(lines: Seq<ReportLine>) -> Seq<GroupView> {
    let headers = first_few(sort_lines(headers_below(lines, lines.len())), 10);
    Seq::new(headers.len(), |g: int| group_of(lines, headers[g]))
}

/// Orders report items by the time of the last run, the longest first.
pub fn sort_items(items: Vec<ReportItem>) -> (sorted: Vec<ReportItem>)
    ensures
        items_view(sorted@) == sort_lines(items_view(items@)),
{
    let ghost lines = items_view(items@);
    let mut sorted: Vec<ReportItem> = Vec::new();
    let mut i: usize = 0;
    proof {
        assert(lines.subrange(0, 0) =~= Seq::<ReportLine>::empty());
    }
    while i < items.len()
        invariant
            i <= items@.len(),
            lines == items_view(items@),
            items_view(sorted@) == sort_lines(lines.subrange(0, i as int)),
        decreases items@.len() - i,
    {
        let item = ReportItem { name: items[i].name.clone(), last: items[i].last, avg: items[i].avg };
        let mut at: usize = sorted.len();
        while at > 0 && sorted[at - 1].last < item.last
            invariant
                at <= sorted@.len(),
                forall|k: int| at <= k < sorted@.len() ==> items_view(sorted@)[k].last < item.last,
            decreases at,
        {
            at -= 1;
        }
        proof {
            assert(item@ == lines[i as int]);
            if at > 0 {
                assert(items_view(sorted@)[at - 1].last >= item.last);
            }
            lemma_insert_line_at(items_view(sorted@), item@, at as int);
            assert(lines.subrange(0, i + 1).drop_last() =~= lines.subrange(0, i as int));
            assert(lines.subrange(0, i + 1).last() == lines[i as int]);
        }
        let ghost before = items_view(sorted@);
        sorted.insert(at, item);
        assert(items_view(sorted@) =~= before.insert(at as int, item@));
        i += 1;
    }
    assert(lines.subrange(0, i as int) =~= lines);
    sorted
}

/// The part of a name before its first separator.
pub fn root_string(name: &String) -> (root: String)
    ensures
        root@ == root_of(name@),
{
    let s = name.as_str();
    let len = s.unicode_len();
    let mut at: usize = 0;
    let mut found = false;
    while !found && len - at > 1
        invariant
            len == name@.len(),
            s@ == name@,
            at <= len,
            !found ==> first_separator(name@, 0) == first_separator(name@, at as int),
            found ==> first_separator(name@, 0) == at && at + 1 < len,
        decreases len - at + (if found { 0int } else { 1int }),
    {
        if s.get_char(at) == ':' && s.get_char(at + 1) == ':' {
            found = true;
        } else {
            at += 1;
        }
    }
    let end = if found {
        at
    } else {
        len
    };
    String::from_str(s.substring_char(0, end))
}

/// The part of a name behind its last separator.
pub fn short_string(name: &String) -> (short: String)
    ensures
        short@ == short_of(name@),
{
    let s = name.as_str();
    let len = s.unicode_len();
    let mut at: usize = 0;
    let mut start: usize = 0;
    while len - at > 1
        invariant
            len == name@.len(),
            s@ == name@,
            start <= at,
            at <= len,
            last_part_start(name@, 0, 0) == last_part_start(name@, at as int, start as int),
        decreases len - at,
    {
        if s.get_char(at) == ':' && s.get_char(at + 1) == ':' {
            at += 2;
            start = at;
        } else {
            at += 1;
        }
    }
    String::from_str(s.substring_char(start, len))
}

fn contains_name(items: &Vec<ReportItem>, name: &String) -> (r: bool)
    ensures
        r == has_name(items_view(items@), name@),
{
    let mut i: usize = 0;
    while i < items.len()
        invariant
            i <= items@.len(),
            forall|j: int| 0 <= j < i ==> (#[trigger] items_view(items@)[j]).name != name@,
        decreases items@.len() - i,
    {
        if items[i].name == *name {
            assert(items_view(items@)[i as int].name == name@);
            return true;
        }
        i += 1;
    }
    false
}

fn header_item(items: &Vec<ReportItem>, root: String) -> (header: ReportItem)
    ensures
        header@ == header_of(items_view(items@), root@),
{
    let ghost lines = items_view(items@);
    let mut i: usize = 0;
    while i < items.len()
        invariant
            i <= items@.len(),
            lines == items_view(items@),
            first_named(lines, root@, 0) == first_named(lines, root@, i as int),
        decreases items@.len() - i,
    {
        if items[i].name == root {
            assert(lines[i as int].name == root@);
            return ReportItem { name: root, last: items[i].last, avg: items[i].avg };
        }
        assert(lines[i as int].name != root@);
        i += 1;
    }
    ReportItem { name: root, last: 0, avg: 0 }
}

fn collect_headers(items: &Vec<ReportItem>) -> (headers: Vec<ReportItem>)
    ensures
        items_view(headers@) == headers_below(items_view(items@), items@.len() as nat),
{
    let ghost lines = items_view(items@);
    let mut headers: Vec<ReportItem> = Vec::new();
    let mut i: usize = 0;
    while i < items.len()
        invariant
            i <= items@.len(),
            lines == items_view(items@),
            items_view(headers@) == headers_below(lines, i as nat),
        decreases items@.len() - i,
    {
        let root = root_string(&items[i].name);
        assert(root@ == root_of(lines[i as int].name));
        if !contains_name(&headers, &root) {
            let ghost before = items_view(headers@);
            let header = header_item(items, root);
            headers.push(header);
            assert(items_view(headers@) =~= before.push(header_of(lines, root_of(lines[i as int].name))));
        }
        i += 1;
    }
    headers
}

fn collect_children(items: &Vec<ReportItem>, root: &String) -> (children: Vec<ReportItem>)
    ensures
        items_view(children@) == children_below(items_view(items@), root@, items@.len() as nat),
{
    let ghost lines = items_view(items@);
    let mut children: Vec<ReportItem> = Vec::new();
    let mut i: usize = 0;
    while i < items.len()
        invariant
            i <= items@.len(),
            lines == items_view(items@),
            items_view(children@) == children_below(lines, root@, i as nat),
        decreases items@.len() - i,
    {
        let item_root = root_string(&items[i].name);
        assert(item_root@ == root_of(lines[i as int].name));
        if item_root == *root && !(items[i].name == *root) {
            let ghost before = items_view(children@);
            children.push(
                ReportItem { name: items[i].name.clone(), last: items[i].last, avg: items[i].avg },
            );
            assert(items_view(children@) =~= before.push(lines[i as int]));
        }
        i += 1;
    }
    children
}

fn build_group(items: &Vec<ReportItem>, header: &ReportItem) -> (group: GroupedLines)
    ensures
        group@ == group_of(items_view(items@), header@),
{
    let sorted = sort_items(collect_children(items, &header.name));
    let ghost chosen = first_few(items_view(sorted@), 5);
    let mut children: Vec<ChildLine> = Vec::new();
    let mut i: usize = 0;
    while i < sorted.len() && i < CHILDREN_LIMIT
        invariant
            i <= sorted@.len(),
            i <= 5,
            chosen == first_few(items_view(sorted@), 5),
            children@.len() == i,
            forall|j: int| 0 <= j < i ==> (#[trigger] children@[j])@ == shortened(chosen[j]),
        decreases sorted@.len() - i,
    {
        assert(chosen[i as int] == items_view(sorted@)[i as int]);
        children.push(
            ChildLine {
                name: short_string(&sorted[i].name),
                last: sorted[i].last,
                avg: sorted[i].avg,
            },
        );
        i += 1;
    }
    let group = GroupedLines {
        root: header.name.clone(),
        last: header.last,
        avg: header.avg,
        children,
    };
    assert(group@.children =~= group_of(items_view(items@), header@).children);
    group
}

/// Arranges the lines of a report in groups.
///
/// Lines belong together whose names begin with the same part up to the first `::`. A
/// group shows the times of the span that is called like the group, and below it the
/// five other spans of the group whose last runs took longest, each under the last part
/// of its name. The ten groups whose own last runs took longest are kept, the longest
/// first; groups and lines that took equally long keep the order in which they came.
pub fn format_grouped_lines(items: &Vec<ReportItem>) -> (groups: Vec<GroupedLines>)
    ensures
        groups_view(groups@) == grouped(items_view(items@)),
{
    let headers = sort_items(collect_headers(items));
    let ghost chosen = first_few(items_view(headers@), 10);
    let mut groups: Vec<GroupedLines> = Vec::new();
    let mut g: usize = 0;
    while g < headers.len() && g < PARENTS_LIMIT
        invariant
            g <= headers@.len(),
            g <= 10,
            chosen == first_few(items_view(headers@), 10),
            groups@.len() == g,
            forall|j: int| 0 <= j < g ==> (#[trigger] groups@[j])@ == group_of(items_view(items@), chosen[j]),
        decreases headers@.len() - g,
    {
        assert(chosen[g as int] == items_view(headers@)[g as int]);
        groups.push(build_group(items, &headers[g]));
        g += 1;
    }
    assert(groups_view(groups@) =~= grouped(items_view(items@)));
    groups
}

} // verus!

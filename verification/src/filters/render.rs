//! The filter list as the text of a filters file.

use vstd::prelude::*;
use crate::filters::{Entry, EntryView, Filter, FilterView, Filters, FiltersView, Group, GroupView};
use crate::text::{append_all, glue, texts};

verus! {

/// What a filters file begins with: a byte order mark, the XML
/// declaration and the opening of the project.
pub open spec fn file_head() -> Seq<char> {
    glue(
        seq![
            "\u{feff}"@,
            "<?xml version=\"1.0\" encoding=\"utf-8\"?>\r\n"@,
            "<Project ToolsVersion=\"4.0\" xmlns=\"http://schemas.microsoft.com/developer/msbuild/2003\">\r\n"@,
        ],
    )
}

/// The element of a folder; nothing for a folder that is not in use.
pub open spec fn filter_text(f: FilterView) -> Seq<char> {
    if f.used {
        glue(
            seq![
                "    <Filter Include=\""@,
                f.path,
                "\">\r\n"@,
                "      <UniqueIdentifier>"@,
                f.unique_id,
                "</UniqueIdentifier>\r\n"@,
                "    </Filter>\r\n"@,
            ],
        )
    } else {
        Seq::empty()
    }
}

/// The elements of the first `upto` folders.
pub open spec fn filters_text(filters: Seq<FilterView>, upto: int) -> Seq<char>
    decreases upto,
{
    if upto <= 0 {
        Seq::empty()
    } else {
        filters_text(filters, upto - 1) + filter_text(filters[upto - 1])
    }
}

/// The element of a file, with its folder where it is shown in one;
/// nothing for a file that is not in use.
pub open spec fn entry_text(e: EntryView) -> Seq<char> {
    if !e.used {
        Seq::empty()
    } else {
        match e.filter {
            Some(folder) => glue(
                seq![
                    "    <"@,
                    e.kind,
                    " Include=\""@,
                    e.file,
                    "\">\r\n"@,
                    "      <Filter>"@,
                    folder,
                    "</Filter>\r\n"@,
                    "    </"@,
                    e.kind,
                    ">\r\n"@,
                ],
            ),
            None => glue(seq!["    <"@, e.kind, " Include=\""@, e.file, "\" />\r\n"@]),
        }
    }
}

/// The elements of the first `upto` files.
pub open spec fn entries_text(entries: Seq<EntryView>, upto: int) -> Seq<char>
    decreases upto,
{
    if upto <= 0 {
        Seq::empty()
    } else {
        entries_text(entries, upto - 1) + entry_text(entries[upto - 1])
    }
}

/// The element of a group with its files; nothing for a group without
/// entries.
pub open spec fn group_text(g: GroupView) -> Seq<char> {
    if g.entries.len() == 0 {
        Seq::empty()
    } else {
        "  <ItemGroup>\r\n"@ + entries_text(g.entries, g.entries.len() as int)
            + "  </ItemGroup>\r\n"@
    }
}

/// The elements of the first `upto` groups.
pub open spec fn groups_text(groups: Seq<GroupView>, upto: int) -> Seq<char>
    decreases upto,
{
    if upto <= 0 {
        Seq::empty()
    } else {
        groups_text(groups, upto - 1) + group_text(groups[upto - 1])
    }
}

/// The text of the filters file for a filter list.
pub open spec fn filters_file(f: FiltersView) -> Seq<char> {
    file_head() + "  <ItemGroup>\r\n"@ + filters_text(f.filters, f.filters.len() as int)
        + "  </ItemGroup>\r\n"@ + groups_text(f.item_groups, f.item_groups.len() as int)
        + "</Project>\r\n"@
}

/// Adds the element of a folder to `text`.
fn append_filter(text: &mut String, f: &Filter)
    ensures
        final(text)@ == old(text)@ + filter_text(f@),
{
    if f.used {
        let parts = vec![
            "    <Filter Include=\"",
            f.path.as_str(),
            "\">\r\n",
            "      <UniqueIdentifier>",
            f.unique_id.as_str(),
            "</UniqueIdentifier>\r\n",
            "    </Filter>\r\n",
        ];
        assert(texts(parts@) =~= seq![
            "    <Filter Include=\""@,
            f.path@,
            "\">\r\n"@,
            "      <UniqueIdentifier>"@,
            f.unique_id@,
            "</UniqueIdentifier>\r\n"@,
            "    </Filter>\r\n"@,
        ]);
        append_all(text, &parts);
    } else {
        assert(text@ =~= old(text)@ + filter_text(f@));
    }
}

/// Adds the element of a file to `text`.
fn append_entry(text: &mut String, e: &Entry)
    ensures
        final(text)@ == old(text)@ + entry_text(e@),
{
    if !e.used {
        assert(text@ =~= old(text)@ + entry_text(e@));
        return ;
    }
    let kind = e.kind.as_str();
    let file = e.file.as_str();
    match &e.filter {
        Some(folder) => {
            let parts = vec![
                "    <",
                kind,
                " Include=\"",
                file,
                "\">\r\n",
                "      <Filter>",
                folder.as_str(),
                "</Filter>\r\n",
                "    </",
                kind,
                ">\r\n",
            ];
            assert(texts(parts@) =~= seq![
                "    <"@,
                e.kind@,
                " Include=\""@,
                e.file@,
                "\">\r\n"@,
                "      <Filter>"@,
                folder@,
                "</Filter>\r\n"@,
                "    </"@,
                e.kind@,
                ">\r\n"@,
            ]);
            append_all(text, &parts);
        },
        None => {
            let parts = vec!["    <", kind, " Include=\"", file, "\" />\r\n"];
            assert(texts(parts@) =~= seq![
                "    <"@,
                e.kind@,
                " Include=\""@,
                e.file@,
                "\" />\r\n"@,
            ]);
            append_all(text, &parts);
        },
    }
}

/// Adds the element of a group to `text`.
fn append_group(text: &mut String, g: &Group)
    ensures
        final(text)@ == old(text)@ + group_text(g@),
{
    if g.entries.len() == 0 {
        assert(text@ =~= old(text)@ + group_text(g@));
        return ;
    }
    text.append("  <ItemGroup>\r\n");
    let ghost opened = text@;
    let mut i: usize = 0;
    assert(text@ =~= opened + entries_text(g@.entries, 0));
    while i < g.entries.len()
        invariant
            0 <= i <= g.entries@.len(),
            text@ == opened + entries_text(g@.entries, i as int),
        decreases g.entries@.len() - i,
    {
        assert(g@.entries[i as int] == g.entries@[i as int]@);
        append_entry(text, &g.entries[i]);
        assert(text@ =~= opened + entries_text(g@.entries, i + 1));
        i += 1;
    }
    text.append("  </ItemGroup>\r\n");
    assert(text@ =~= old(text)@ + group_text(g@));
}

/// Writes a filter list as the text of a filters file.
pub fn render_filters(filters: &Filters) -> (text: String)
    ensures
        text@ == filters_file(filters@),
{
    let mut text = String::new();
    let head = vec![
        "\u{feff}",
        "<?xml version=\"1.0\" encoding=\"utf-8\"?>\r\n",
        "<Project ToolsVersion=\"4.0\" xmlns=\"http://schemas.microsoft.com/developer/msbuild/2003\">\r\n",
    ];
    assert(texts(head@) =~= seq![
        "\u{feff}"@,
        "<?xml version=\"1.0\" encoding=\"utf-8\"?>\r\n"@,
        "<Project ToolsVersion=\"4.0\" xmlns=\"http://schemas.microsoft.com/developer/msbuild/2003\">\r\n"@,
    ]);
    append_all(&mut text, &head);
    assert(text@ =~= file_head());
    text.append("  <ItemGroup>\r\n");
    let ghost opened = text@;
    let mut i: usize = 0;
    assert(text@ =~= opened + filters_text(filters@.filters, 0));
    while i < filters.filters.len()
        invariant
            0 <= i <= filters.filters@.len(),
            text@ == opened + filters_text(filters@.filters, i as int),
        decreases filters.filters@.len() - i,
    {
        assert(filters@.filters[i as int] == filters.filters@[i as int]@);
        append_filter(&mut text, &filters.filters[i]);
        assert(text@ =~= opened + filters_text(filters@.filters, i + 1));
        i += 1;
    }
    text.append("  </ItemGroup>\r\n");
    let ghost closed = text@;
    let mut g: usize = 0;
    assert(text@ =~= closed + groups_text(filters@.item_groups, 0));
    while g < filters.item_groups.len()
        invariant
            0 <= g <= filters.item_groups@.len(),
            text@ == closed + groups_text(filters@.item_groups, g as int),
        decreases filters.item_groups@.len() - g,
    {
        assert(filters@.item_groups[g as int] == filters.item_groups@[g as int]@);
        append_group(&mut text, &filters.item_groups[g]);
        assert(text@ =~= closed + groups_text(filters@.item_groups, g + 1));
        g += 1;
    }
    text.append("</Project>\r\n");
    assert(text@ =~= filters_file(filters@));
    text
}

} // verus!

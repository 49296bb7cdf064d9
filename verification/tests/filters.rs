use devtools::filters::arrange::{
    arrange_entries, arrange_filters, arrange_groups, entries_in_use, filters_in_use, written_order,
};
use devtools::filters::generate::{generate_new_filters, try_generate_new_filters};
use devtools::filters::ids::{filter_id, urn_uuid};
use devtools::filters::paths::{file_filter, get_extension, rfind};
use devtools::filters::render::render_filters;
use devtools::filters::{same_text_option, Entry, Filter, Filters, Group};
use devtools::order::Texts;
use devtools::text::chars_of;

fn folder(path: &str, id: &str, used: bool) -> Filter {
    Filter { path: path.to_string(), unique_id: id.to_string(), used }
}

fn entry(kind: &str, file: &str, filter: Option<&str>, used: bool) -> Entry {
    Entry {
        kind: kind.to_string(),
        file: file.to_string(),
        filter: filter.map(|f| f.to_string()),
        used,
    }
}

fn folders(f: &Filters) -> Vec<(String, bool)> {
    f.filters.iter().map(|x| (x.path.clone(), x.used)).collect()
}

fn files(g: &Group) -> Vec<(String, String, Option<String>, bool)> {
    g.entries.iter().map(|e| (e.kind.clone(), e.file.clone(), e.filter.clone(), e.used)).collect()
}

fn row(kind: &str, file: &str, filter: Option<&str>, used: bool) -> (String, String, Option<String>, bool) {
    (kind.to_string(), file.to_string(), filter.map(|f| f.to_string()), used)
}

fn is_new_id(id: &str) -> bool {
    let b = id.as_bytes();
    b.len() == 34
        && b[0] == b'{'
        && b[33] == b'}'
        && b[1..33].iter().enumerate().all(|(i, c)| match i {
            8 | 13 | 18 | 23 => *c == b'-',
            _ => c.is_ascii_digit() || (b'a'..=b'f').contains(c),
        })
        && b[15] == b'4'
        && matches!(b[20], b'8' | b'9' | b'a' | b'b')
}

#[test]
fn last_place_of_a_character() {
    assert_eq!(rfind(&chars_of("a.b.c"), '.'), Some(3));
    assert_eq!(rfind(&chars_of(".abc"), '.'), Some(0));
    assert_eq!(rfind(&chars_of("abc"), '.'), None);
    assert_eq!(rfind(&chars_of(""), '.'), None);
    assert_eq!(rfind(&chars_of("é.é"), '.'), Some(1));
}

#[test]
fn folder_is_what_stands_before_the_last_backslash() {
    assert_eq!(file_filter("src\\util\\x.cpp"), Some("src\\util".to_string()));
    assert_eq!(file_filter("src\\x.cpp"), Some("src".to_string()));
    assert_eq!(file_filter("x.cpp"), None);
    assert_eq!(file_filter("\\x.cpp"), Some(String::new()));
    assert_eq!(file_filter("src\\"), Some("src".to_string()));
    assert_eq!(file_filter("src/x.cpp"), None);
    assert_eq!(file_filter("é\\è\\x"), Some("é\\è".to_string()));
    assert_eq!(file_filter(""), None);
}

#[test]
fn extension_starts_at_the_last_dot() {
    assert_eq!(get_extension("main.cpp"), Some(".cpp".to_string()));
    assert_eq!(get_extension("a.tar.gz"), Some(".gz".to_string()));
    assert_eq!(get_extension("Makefile"), None);
    assert_eq!(get_extension("dir.d\\file"), Some(".d\\file".to_string()));
    assert_eq!(get_extension("name."), Some(".".to_string()));
    assert_eq!(get_extension(".gitignore"), Some(".gitignore".to_string()));
    assert_eq!(get_extension("é.è"), Some(".è".to_string()));
    assert_eq!(get_extension(""), None);
}

#[test]
fn new_items_of_a_filter_list() {
    let e = Entry::new("ClCompile", "src\\a.cpp");
    assert_eq!(files(&Group { entries: vec![e], ext: String::new() }), vec![row("ClCompile", "src\\a.cpp", Some("src"), true)]);
    let e = Entry::new("ClInclude", "a.h");
    assert_eq!((e.kind.as_str(), e.file.as_str(), e.filter.clone(), e.used), ("ClInclude", "a.h", None, true));
    let f = Filter::new();
    assert_eq!((f.path.as_str(), f.unique_id.as_str(), f.used), ("", "", false));
    let g = Group::new();
    assert!(g.entries.is_empty());
    assert_eq!(g.ext, "");
    let fs = Filters::new();
    assert!(fs.filters.is_empty() && fs.item_groups.is_empty());
}

#[test]
fn copies_keep_everything() {
    let e = entry("K", "f.x", Some("d"), false);
    let c = e.copy();
    assert_eq!((c.kind.as_str(), c.file.as_str(), c.filter.as_deref(), c.used), ("K", "f.x", Some("d"), false));
    let u = e.in_use();
    assert_eq!((u.kind.as_str(), u.file.as_str(), u.filter.as_deref(), u.used), ("K", "f.x", Some("d"), true));
    let f = folder("p", "{id}", true).copy();
    assert_eq!((f.path.as_str(), f.unique_id.as_str(), f.used), ("p", "{id}", true));
    let g = Group { entries: vec![entry("K", "f.x", None, true), e], ext: ".x".to_string() }.copy();
    assert_eq!(g.ext, ".x");
    assert_eq!(files(&g), vec![row("K", "f.x", None, true), row("K", "f.x", Some("d"), false)]);
    assert_eq!(same_text_option(&Some("a".to_string())), Some("a".to_string()));
    assert_eq!(same_text_option(&None), None);
}

#[test]
fn group_is_known_by_its_first_file() {
    let g = Group::from_vec(vec![entry("K", "b.tar.gz", None, true), entry("K", "a.h", None, true)]);
    assert_eq!(g.ext, ".gz");
    assert_eq!(g.entries.len(), 2);
    assert_eq!(g.entries[1].file, "a.h");
}

#[test]
fn identifier_is_written_from_its_bytes() {
    assert_eq!(filter_id([0u8; 16]), "{00000000-0000-4000-8000-00000000}");
    assert_eq!(filter_id([0xffu8; 16]), "{ffffffff-ffff-4fff-bfff-ffffffff}");
    let bytes: [u8; 16] = [0, 1, 2, 3, 4, 5, 6, 7, 8, 9, 10, 11, 12, 13, 14, 15];
    assert_eq!(filter_id(bytes), "{00010203-0405-4607-8809-0a0b0c0d}");
    let bytes: [u8; 16] =
        [0x93, 0x6d, 0xa0, 0x1f, 0x9a, 0xbd, 0x1d, 0x9d, 0x40, 0xc7, 0x02, 0xaf, 0x85, 0xc8, 0x22, 0xa8];
    assert_eq!(filter_id(bytes), "{936da01f-9abd-4d9d-80c7-02af85c8}");
}

#[test]
fn new_identifiers_have_the_form_of_an_identifier() {
    let a = urn_uuid();
    let b = urn_uuid();
    assert!(is_new_id(&a), "{a}");
    assert!(is_new_id(&b), "{b}");
    assert_ne!(a, b);
}

#[test]
fn first_folder_of_a_path_is_marked() {
    let mut f = Filters {
        filters: vec![folder("a", "1", false), folder("b", "2", false), folder("b", "3", false)],
        item_groups: vec![],
    };
    assert!(f.mark_used("b"));
    assert_eq!(
        folders(&f),
        vec![("a".to_string(), false), ("b".to_string(), true), ("b".to_string(), false)]
    );
    assert!(!f.mark_used("c"));
    assert!(!f.mark_used("B"));
    assert_eq!(f.filters.len(), 3);
}

#[test]
fn missing_folders_are_created_from_the_top() {
    let mut f = Filters::new();
    f.add_filter_only("a\\b\\c");
    assert_eq!(
        folders(&f),
        vec![("a".to_string(), true), ("a\\b".to_string(), true), ("a\\b\\c".to_string(), true)]
    );
    assert!(f.filters.iter().all(|x| is_new_id(&x.unique_id)));
    assert!(f.item_groups.is_empty());
}

#[test]
fn known_folders_are_marked_and_keep_their_identifier() {
    let mut f = Filters {
        filters: vec![folder("a\\b", "{ab}", false), folder("x", "{x}", false), folder("a", "{a}", false)],
        item_groups: vec![],
    };
    f.add_filter_only("a\\b\\c");
    assert_eq!(
        folders(&f),
        vec![
            ("a\\b".to_string(), true),
            ("x".to_string(), false),
            ("a".to_string(), true),
            ("a\\b\\c".to_string(), true)
        ]
    );
    assert_eq!(f.filters[0].unique_id, "{ab}");
    assert_eq!(f.filters[1].unique_id, "{x}");
    assert_eq!(f.filters[2].unique_id, "{a}");
    assert!(is_new_id(&f.filters[3].unique_id));
    f.add_filter_only("a\\b\\c");
    assert_eq!(f.filters.len(), 4);
}

#[test]
fn folder_with_empty_levels() {
    let mut f = Filters::new();
    f.add_filter_only("\\a");
    assert_eq!(folders(&f), vec![("".to_string(), true), ("\\a".to_string(), true)]);
    let mut f = Filters::new();
    f.add_filter_only("");
    assert_eq!(folders(&f), vec![("".to_string(), true)]);
}

#[test]
fn known_file_is_marked_where_it_stands_first() {
    let mut f = Filters {
        filters: vec![],
        item_groups: vec![
            Group { entries: vec![entry("K", "a.h", None, false)], ext: ".h".to_string() },
            Group {
                entries: vec![
                    entry("K", "b.cpp", None, false),
                    entry("K", "c.cpp", Some("old"), false),
                    entry("K", "c.cpp", Some("older"), false),
                ],
                ext: ".cpp".to_string(),
            },
            Group { entries: vec![entry("K", "c.cpp", None, false)], ext: String::new() },
        ],
    };
    assert!(f.knows_file("c.cpp"));
    assert!(!f.knows_file("d.cpp"));
    assert!(f.item_groups[1].lists("b.cpp"));
    assert!(!f.item_groups[0].lists("b.cpp"));
    f.add_filter(&entry("Other", "c.cpp", Some("src"), false));
    assert_eq!(folders(&f), vec![("src".to_string(), true)]);
    assert_eq!(files(&f.item_groups[0]), vec![row("K", "a.h", None, false)]);
    assert_eq!(
        files(&f.item_groups[1]),
        vec![
            row("K", "b.cpp", None, false),
            row("K", "c.cpp", Some("src"), true),
            row("K", "c.cpp", Some("older"), false)
        ]
    );
    assert_eq!(files(&f.item_groups[2]), vec![row("K", "c.cpp", None, false)]);
    // a file without folder loses the folder it was shown in
    f.add_filter(&entry("K", "c.cpp", None, true));
    assert_eq!(f.item_groups[1].entries[1].filter, None);
    assert_eq!(f.filters.len(), 1);
}

#[test]
fn new_file_joins_every_group_of_its_extension() {
    let mut f = Filters {
        filters: vec![],
        item_groups: vec![
            Group { entries: vec![entry("K", "a.cpp", None, false)], ext: ".cpp".to_string() },
            Group { entries: vec![entry("K", "a.h", None, false)], ext: ".h".to_string() },
            Group { entries: vec![entry("K", "b.cpp", None, false)], ext: "whatever".to_string() },
        ],
    };
    assert!(f.is_sound());
    let e = entry("ClCompile", "src\\n.cpp", Some("src"), false);
    assert!(f.can_add_file(&e));
    f.add_filter(&e);
    assert_eq!(files(&f.item_groups[0]), vec![row("K", "a.cpp", None, false), row("ClCompile", "src\\n.cpp", Some("src"), true)]);
    assert_eq!(files(&f.item_groups[1]), vec![row("K", "a.h", None, false)]);
    assert_eq!(files(&f.item_groups[2]), vec![row("K", "b.cpp", None, false), row("ClCompile", "src\\n.cpp", Some("src"), true)]);
    assert_eq!(f.item_groups.len(), 3);
}

#[test]
fn new_file_of_a_new_extension_opens_a_group() {
    let mut f = Filters::new();
    f.add_filter(&entry("None", "notes.txt", None, false));
    assert_eq!(f.item_groups.len(), 1);
    assert_eq!(f.item_groups[0].ext, "");
    assert_eq!(files(&f.item_groups[0]), vec![row("None", "notes.txt", None, true)]);
    assert!(f.filters.is_empty());
}

#[test]
fn what_can_be_added() {
    let mut f = Filters::new();
    assert!(f.is_sound());
    assert!(f.can_add_file(&entry("K", "a.cpp", None, true)));
    assert!(!f.can_add_file(&entry("K", "Makefile", None, true)));
    f.item_groups.push(Group { entries: vec![entry("K", "Makefile", None, true)], ext: String::new() });
    assert!(!f.is_sound());
    assert!(f.can_add_file(&entry("K", "Makefile", None, true)));
    assert!(!f.can_add_file(&entry("K", "a.cpp", None, true)));
    f.item_groups[0] = Group::new();
    assert!(!f.is_sound());
    assert!(!f.can_add_file(&entry("K", "a.cpp", None, true)));
}

#[test]
fn only_what_is_in_use_is_kept() {
    let fs = vec![folder("a", "1", true), folder("b", "2", false), folder("c", "3", true)];
    let kept = filters_in_use(&fs);
    assert_eq!(kept.iter().map(|f| f.path.as_str()).collect::<Vec<_>>(), vec!["a", "c"]);
    assert_eq!(kept[1].unique_id, "3");
    let es = vec![entry("K", "a", None, false), entry("K", "b", Some("x"), true), entry("K", "c", None, false)];
    let kept = entries_in_use(&es);
    assert_eq!(kept.len(), 1);
    assert_eq!(kept[0].file, "b");
    assert_eq!(kept[0].filter.as_deref(), Some("x"));
    assert!(entries_in_use(&vec![]).is_empty());
}

#[test]
fn written_order_is_alphabetical_on_request() {
    let mut t = Texts::new();
    for w in ["b", "a", "c", "a"] {
        t.push(w);
    }
    assert_eq!(written_order(&t, true), vec![1, 3, 0, 2]);
    assert_eq!(written_order(&t, false), vec![0, 1, 2, 3]);
    assert_eq!(written_order(&Texts::new(), true), Vec::<usize>::new());
}

#[test]
fn items_are_arranged_by_their_texts() {
    let fs = vec![folder("b", "1", true), folder("a\\z", "2", true), folder("a", "3", false)];
    let sorted = arrange_filters(&fs, true);
    assert_eq!(sorted.iter().map(|f| f.unique_id.as_str()).collect::<Vec<_>>(), vec!["3", "2", "1"]);
    let same = arrange_filters(&fs, false);
    assert_eq!(same.iter().map(|f| f.unique_id.as_str()).collect::<Vec<_>>(), vec!["1", "2", "3"]);

    let es = vec![entry("1", "b.c", None, true), entry("2", "a.c", None, true), entry("3", "b.c", None, true)];
    let sorted = arrange_entries(&es, true);
    assert_eq!(sorted.iter().map(|e| e.kind.as_str()).collect::<Vec<_>>(), vec!["2", "1", "3"]);

    let gs = vec![
        Group { entries: vec![entry("K", "x.h", None, true)], ext: ".h".to_string() },
        Group { entries: vec![], ext: ".cpp".to_string() },
    ];
    let sorted = arrange_groups(&gs, true);
    assert_eq!(sorted.iter().map(|g| g.ext.as_str()).collect::<Vec<_>>(), vec![".cpp", ".h"]);
    assert_eq!(sorted[1].entries.len(), 1);
}

fn project_files() -> Vec<Entry> {
    vec![
        Entry::new("ClCompile", "src\\util\\x.cpp"),
        Entry::new("ClInclude", "src\\main.h"),
        Entry::new("ClCompile", "src\\main.cpp"),
        Entry::new("None", "readme.txt"),
    ]
}

#[test]
fn filter_list_is_generated_from_nothing() {
    let mut old = Filters::new();
    let new = generate_new_filters(&mut old, &project_files(), true);
    assert_eq!(folders(&old), vec![("src".to_string(), true), ("src\\util".to_string(), true)]);
    assert_eq!(old.item_groups.len(), 3);
    assert_eq!(
        files(&old.item_groups[0]),
        vec![
            row("ClCompile", "src\\util\\x.cpp", Some("src\\util"), true),
            row("ClCompile", "src\\main.cpp", Some("src"), true)
        ]
    );
    assert_eq!(old.item_groups[0].ext, "");

    assert_eq!(folders(&new), vec![("src".to_string(), true), ("src\\util".to_string(), true)]);
    assert_eq!(new.filters[0].unique_id, old.filters[0].unique_id);
    assert_eq!(new.filters[1].unique_id, old.filters[1].unique_id);
    assert_eq!(new.item_groups.iter().map(|g| g.ext.as_str()).collect::<Vec<_>>(), vec![".cpp", ".h", ".txt"]);
    assert_eq!(
        files(&new.item_groups[0]),
        vec![
            row("ClCompile", "src\\main.cpp", Some("src"), true),
            row("ClCompile", "src\\util\\x.cpp", Some("src\\util"), true)
        ]
    );
    assert_eq!(files(&new.item_groups[1]), vec![row("ClInclude", "src\\main.h", Some("src"), true)]);
    assert_eq!(files(&new.item_groups[2]), vec![row("None", "readme.txt", None, true)]);
}

#[test]
fn order_is_kept_without_sorting() {
    let mut old = Filters::new();
    let new = generate_new_filters(&mut old, &project_files(), false);
    assert_eq!(folders(&new), vec![("src".to_string(), true), ("src\\util".to_string(), true)]);
    assert_eq!(new.item_groups.iter().map(|g| g.ext.as_str()).collect::<Vec<_>>(), vec![".cpp", ".h", ".txt"]);
    assert_eq!(
        files(&new.item_groups[0]),
        vec![
            row("ClCompile", "src\\util\\x.cpp", Some("src\\util"), true),
            row("ClCompile", "src\\main.cpp", Some("src"), true)
        ]
    );
}

#[test]
fn what_the_project_dropped_is_left_out() {
    let mut old = Filters {
        filters: vec![folder("gone", "{g}", false), folder("src", "{s}", false)],
        item_groups: vec![
            Group {
                entries: vec![entry("ClCompile", "gone\\old.cpp", Some("gone"), false), entry("ClCompile", "src\\main.cpp", Some("elsewhere"), false)],
                ext: ".cpp".to_string(),
            },
            Group { entries: vec![entry("ClInclude", "gone\\old.h", Some("gone"), false)], ext: ".h".to_string() },
        ],
    };
    let files_now = vec![Entry::new("ClCompile", "src\\main.cpp"), Entry::new("ClCompile", "src\\new.cpp")];
    let new = try_generate_new_filters(&mut old, &files_now, true).unwrap();
    assert_eq!(folders(&new), vec![("src".to_string(), true)]);
    assert_eq!(new.filters[0].unique_id, "{s}");
    assert_eq!(new.item_groups.len(), 1);
    assert_eq!(new.item_groups[0].ext, ".cpp");
    assert_eq!(
        files(&new.item_groups[0]),
        vec![row("ClCompile", "src\\main.cpp", Some("src"), true), row("ClCompile", "src\\new.cpp", Some("src"), true)]
    );
    // the old list keeps what is no longer in use
    assert_eq!(old.item_groups.len(), 2);
    assert_eq!(old.item_groups[0].entries.len(), 3);
    assert!(!old.item_groups[0].entries[0].used);
    assert!(!old.filters[0].used);
}

#[test]
fn generation_stops_where_a_file_has_no_extension() {
    let mut old = Filters::new();
    let files_now = vec![Entry::new("ClCompile", "a.cpp"), Entry::new("None", "Makefile")];
    assert!(try_generate_new_filters(&mut old, &files_now, true).is_none());
    assert_eq!(old.item_groups.len(), 1);

    // a known file without extension is fine until its group is written anew
    let mut old = Filters {
        filters: vec![],
        item_groups: vec![Group { entries: vec![entry("None", "Makefile", None, false)], ext: String::new() }],
    };
    assert!(try_generate_new_filters(&mut old, &vec![], true).is_some());
    assert!(try_generate_new_filters(&mut old, &vec![Entry::new("None", "Makefile")], true).is_none());
    assert!(old.item_groups[0].entries[0].used);
}

#[test]
fn sorting_decides_which_file_names_the_group() {
    let mut old = Filters {
        filters: vec![],
        item_groups: vec![Group {
            entries: vec![entry("K", "b.x", None, false), entry("K", "a", None, false)],
            ext: String::new(),
        }],
    };
    let now = vec![Entry::new("K", "b.x"), Entry::new("K", "a")];
    assert!(try_generate_new_filters(&mut old, &now, true).is_none());
    let new = try_generate_new_filters(&mut old, &now, false).unwrap();
    assert_eq!(new.item_groups[0].ext, ".x");
}

#[test]
fn filters_file_is_written_out() {
    let f = Filters {
        filters: vec![folder("src", "{1}", true), folder("old", "{2}", false)],
        item_groups: vec![
            Group {
                entries: vec![
                    entry("ClCompile", "src\\main.cpp", Some("src"), true),
                    entry("ClCompile", "gone.cpp", None, false),
                    entry("ClCompile", "top.cpp", None, true),
                ],
                ext: ".cpp".to_string(),
            },
            Group { entries: vec![], ext: ".h".to_string() },
            Group { entries: vec![entry("None", "x.txt", None, false)], ext: ".txt".to_string() },
        ],
    };
    let expected = "\u{feff}<?xml version=\"1.0\" encoding=\"utf-8\"?>\r\n\
<Project ToolsVersion=\"4.0\" xmlns=\"http://schemas.microsoft.com/developer/msbuild/2003\">\r\n\
\x20 <ItemGroup>\r\n\
\x20   <Filter Include=\"src\">\r\n\
\x20     <UniqueIdentifier>{1}</UniqueIdentifier>\r\n\
\x20   </Filter>\r\n\
\x20 </ItemGroup>\r\n\
\x20 <ItemGroup>\r\n\
\x20   <ClCompile Include=\"src\\main.cpp\">\r\n\
\x20     <Filter>src</Filter>\r\n\
\x20   </ClCompile>\r\n\
\x20   <ClCompile Include=\"top.cpp\" />\r\n\
\x20 </ItemGroup>\r\n\
\x20 <ItemGroup>\r\n\
\x20 </ItemGroup>\r\n\
</Project>\r\n";
    let text = render_filters(&f);
    assert_eq!(text, expected);
    assert_eq!(&text.as_bytes()[..3], &[0xef, 0xbb, 0xbf]);
    assert_eq!(
        render_filters(&Filters::new()),
        "\u{feff}<?xml version=\"1.0\" encoding=\"utf-8\"?>\r\n<Project ToolsVersion=\"4.0\" xmlns=\"http://schemas.microsoft.com/developer/msbuild/2003\">\r\n  <ItemGroup>\r\n  </ItemGroup>\r\n</Project>\r\n"
    );
}

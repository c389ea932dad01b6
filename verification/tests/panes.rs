use lookxy::model::{FolderRow, ImageSource, MessageRow, Thread};
use lookxy::ui::agenda::body_line;
use lookxy::ui::backstage;
use lookxy::ui::backstage::{Backstage, Item};
use lookxy::ui::categories::{color_for, preset_color};
use lookxy::ui::folders::folder_line;
use lookxy::ui::foldertree::{build_visible, VisibleFolder};
use lookxy::ui::help::help_lines;
use lookxy::ui::linkprompt::{parse_url_parts, prompt_rows, safe_url, LinkPrompt};
use lookxy::ui::message_list;
use lookxy::ui::message_list::{child_line, header_line, short_time};
use lookxy::ui::oofform;
use lookxy::ui::picture;
use lookxy::ui::rail::{centered, rail_lines};
use lookxy::ui::reading::{
    body_layout, data_image_key, image_caption, style_of, to_line, visible_band, wrap_url,
    ImageRef, StyledLine, StyledSpan,
};
use lookxy::ui::ribbon::{
    folder_groups, help_groups, home_groups, send_receive_groups, view_groups, Act, Ribbon, Seg,
};
use lookxy::ui::style::{Color, Line, Style};
use lookxy::ui::width::{measure, truncate_width};

fn shown(l: &Line) -> String {
    l.spans.iter().map(|s| s.text.as_str()).collect()
}

#[test]
fn safe_url_allows_only_web_schemes() {
    assert!(safe_url("https://acme.com"));
    assert!(safe_url("http://x"));
    assert!(!safe_url("javascript:alert(1)"));
    assert!(!safe_url("mailto:a@b"));
    assert!(!safe_url(""));
}

#[test]
fn parse_url_parts_splits_scheme_host_path_query() {
    let parts = parse_url_parts("https://acme.com/a/b?x=1&y=2");
    assert_eq!(parts[0], ("protocol", "https".to_string()));
    assert_eq!(parts[1], ("host", "acme.com".to_string()));
    assert_eq!(parts[2], ("path", "/a/b".to_string()));
    assert_eq!(parts[3], ("query", "x=1&y=2".to_string()));

    let bare = parse_url_parts("https://acme.com");
    assert_eq!(
        bare,
        vec![("protocol", "https".into()), ("host", "acme.com".into())]
    );
}

#[test]
fn centers_labels_within_the_column() {
    assert_eq!(centered("M", 1, 3), " M ");
    assert_eq!(centered("\u{1f4c5}", 2, 3), "\u{1f4c5} ");
}

#[test]
fn draws_both_section_labels() {
    let (mail, calendar) = rail_lines(lookxy::app::Mode::Mail, 3);
    assert!(shown(&mail).contains('M'));
    assert!(shown(&calendar).contains('\u{1f4c5}'));
    assert!(mail.spans[0].style.reversed);
    assert!(calendar.spans[0].style.dim);
}

#[test]
fn data_image_key_distinguishes_same_length_different_content() {
    let a = data_image_key(b"AAAA");
    let b = data_image_key(b"BBBB");
    assert_ne!(a, b, "same-length different-content bytes must not collide");
    assert_eq!(
        data_image_key(b"AAAA"),
        a,
        "identical bytes must produce the same key"
    );
    assert!(a.starts_with("data:"));
    assert_eq!(a.len(), "data:".len() + 16);
}

fn inbox(unread: i64) -> VisibleFolder {
    VisibleFolder {
        row: FolderRow {
            id: "i".into(),
            parent_id: None,
            display_name: "Inbox".into(),
            total_count: 0,
            unread_count: unread,
            well_known_name: Some("inbox".into()),
            is_expanded: false,
        },
        depth: 0,
        has_children: false,
        expanded: false,
    }
}

#[test]
fn unread_count_is_bold_blue_and_right_aligned() {
    let line = folder_line(&inbox(2), 20);
    let last = line.spans.last().unwrap();
    assert_eq!(last.text, "2");
    assert_eq!(last.style.fg, Some(Color::Blue));
    assert!(last.style.bold);
    let total: usize = line.spans.iter().map(|s| s.text.chars().count()).sum();
    assert_eq!(total, 20);
}

#[test]
fn long_names_leave_room_for_the_count() {
    let mut v = inbox(12);
    v.row.display_name = "A folder with a very long name".into();
    let line = folder_line(&v, 12);
    assert_eq!(shown(&line), "  A folde 12");
    assert_eq!(shown(&folder_line(&inbox(0), 3)), "  Inbox");
}

#[test]
fn renders_chevron_and_indented_child() {
    let mut v = inbox(0);
    v.has_children = true;
    v.expanded = true;
    assert_eq!(shown(&folder_line(&v, 20)), "\u{25be} Inbox");
    v.expanded = false;
    assert_eq!(shown(&folder_line(&v, 20)), "\u{25b8} Inbox");
    let mut child = inbox(0);
    child.depth = 1;
    child.row.display_name = "EPAM".into();
    assert!(shown(&folder_line(&child, 20)).contains("   EPAM"));
}

fn message() -> MessageRow {
    MessageRow {
        id: "m1".into(),
        folder_id: "inbox".into(),
        subject: "Hello".into(),
        from_name: "Alice".into(),
        from_addr: "alice@example.com".into(),
        to_recipients: "".into(),
        cc_recipients: "".into(),
        bcc_recipients: "".into(),
        received_at: "2026-07-16T10:00:00Z".into(),
        is_read: false,
        is_flagged: true,
        has_attachments: true,
        preview: "hi there".into(),
        is_draft: false,
        is_meeting_request: false,
        categories: Vec::new(),
    }
}

#[test]
fn rows_show_markers_time_sender_and_subject() {
    let mut m = message();
    let l = message_list::line(&m, 80);
    assert_eq!(shown(&l), "!@ 07-16 10:00  Alice \u{2014} Hello");
    assert!(l.spans[0].style.bold);
    m.is_read = true;
    m.is_flagged = false;
    m.has_attachments = false;
    let l = message_list::line(&m, 10);
    assert_eq!(shown(&l), "   07-16 1");
    assert!(!l.spans[0].style.bold);
    m.subject = "".into();
    assert_eq!(
        shown(&child_line(&m, true, 80)),
        "       07-16 10:00  Alice \u{2014} hi there"
    );
}

#[test]
fn times_without_their_parts_stay_as_they_are() {
    assert_eq!(short_time("2026-07-16T10:00:00Z"), "07-16 10:00");
    assert_eq!(short_time(""), "");
    assert_eq!(short_time("soon"), "soon");
    assert_eq!(short_time("2026é07-16T10:00:00Z"), "2026é07-16T10:00:00Z");
}

#[test]
fn headers_count_messages_and_name_who_took_part() {
    let t = Thread {
        key: "c1".into(),
        subject: "Re: Hello".into(),
        participants: vec!["Alice".into(), "Bob".into()],
        messages: vec![message(), message()],
        latest_received: "2026-07-16T11:30:00Z".into(),
        unread_count: 1,
        any_flagged: false,
        any_attachments: false,
    };
    let l = header_line(&t, true, 80);
    assert_eq!(
        shown(&l),
        "\u{25be}   07-16 11:30  (2) Alice, Bob \u{2014} Re: Hello"
    );
    assert!(l.spans[0].style.bold);
}

#[test]
fn wide_characters_count_twice() {
    assert_eq!(truncate_width("日本語", 4), "日本");
    assert_eq!(truncate_width("日本語", 5), "日本");
    assert_eq!(truncate_width("abc", 5), "abc");
    assert_eq!(measure("日本"), 4);
    assert_eq!(measure("ab"), 2);
}

#[test]
fn draw_lists_group_headers() {
    let text: String = help_lines().iter().map(|l| shown(l) + "\n").collect();
    assert!(text.contains("Global"));
    assert!(text.contains("Message list"));
    assert!(text.contains("  q                quit\n"));
    assert!(text.contains("\n\nFolders\n"));
}

fn span(text: &str, link: Option<&str>) -> StyledSpan {
    StyledSpan {
        text: text.into(),
        bold: false,
        italic: false,
        underline: false,
        link: link.map(|s| s.to_string()),
    }
}

fn text_line(spans: Vec<StyledSpan>, indent: u16) -> StyledLine {
    StyledLine { spans, indent, image: None }
}

fn image_line(alt: &str) -> StyledLine {
    StyledLine {
        spans: Vec::new(),
        indent: 0,
        image: Some(ImageRef { src: ImageSource::Cid("logo".into()), alt: alt.into() }),
    }
}

#[test]
fn linked_spans_render_blue() {
    let s = span("click", Some("https://x"));
    assert_eq!(style_of(&s, &None).fg, Some(Color::Blue));
    assert!(!style_of(&s, &None).reversed);
    assert!(style_of(&s, &Some("https://x".into())).reversed);
    assert!(!style_of(&s, &Some("https://y".into())).reversed);
}

#[test]
fn two_links_on_a_row_are_two_targets() {
    let body = vec![text_line(
        vec![
            span("one", Some("https://a")),
            span(" and ", None),
            span("t", Some("https://b")),
            span("wo", Some("https://b")),
        ],
        1,
    )];
    let out = body_layout(&body, &None, 2);
    assert_eq!(out.links.len(), 2);
    assert_eq!(out.links[0].url, "https://a");
    assert_eq!((out.links[0].col, out.links[0].width), (2, 3));
    assert_eq!(out.links[1].url, "https://b");
    assert_eq!((out.links[1].col, out.links[1].width), (10, 3));
    assert_eq!(shown(&out.lines[0]), "  one and two");
}

#[test]
fn a_wrapped_link_is_one_target() {
    let url = Some("https://long");
    let body = vec![
        text_line(vec![span("https:", url)], 0),
        text_line(vec![span("//lo", url)], 0),
        text_line(vec![span("ng", url)], 0),
        text_line(vec![span("other", Some("https://o"))], 0),
        text_line(vec![span("again", url)], 0),
    ];
    let out = body_layout(&body, &None, 2);
    let at: Vec<(usize, &str)> = out.links.iter().map(|l| (l.line, l.url.as_str())).collect();
    assert_eq!(at, vec![(0, "https://long"), (3, "https://o"), (4, "https://long")]);
}

#[test]
fn images_take_a_band_of_rows() {
    let body = vec![
        text_line(vec![span("hello", None)], 0),
        image_line("Logo"),
        text_line(vec![span("bye", None)], 0),
        image_line(""),
    ];
    let out = body_layout(&body, &None, 2);
    assert_eq!(out.lines.len(), 22);
    assert_eq!(out.images, vec![(1, 1), (12, 3)]);
    assert_eq!(shown(&out.lines[11]), "bye");
    assert_eq!(image_caption(body[1].image.as_ref().unwrap()), "[image: Logo]");
    assert_eq!(image_caption(body[3].image.as_ref().unwrap()), "[image]");
}

#[test]
fn a_band_is_cut_to_what_is_on_screen() {
    assert_eq!(visible_band(1, 0, 30), Some((1, 10)));
    assert_eq!(visible_band(1, 4, 30), Some((0, 7)));
    assert_eq!(visible_band(25, 0, 30), Some((25, 5)));
    assert_eq!(visible_band(40, 0, 30), None);
    assert_eq!(visible_band(0, 10, 30), None);
}

#[test]
fn the_url_strip_is_wrapped_and_cut() {
    assert_eq!(wrap_url("abc", 10, 3), vec!["\u{1f517} abc".to_string()]);
    assert_eq!(
        wrap_url("abcdefgh", 4, 3),
        vec!["\u{1f517} a".to_string(), "bcde".to_string(), "fgh".to_string()]
    );
    assert_eq!(
        wrap_url("abcdefghijkl", 4, 2),
        vec!["\u{1f517} a".to_string(), "bcd\u{2026}".to_string()]
    );
    assert_eq!(wrap_url("ab", 1, 2), vec!["\u{1f517}".to_string(), "\u{2026}".to_string()]);
}

#[test]
fn indent_and_emphasis_reach_the_row() {
    let mut s = span("x", None);
    s.bold = true;
    let l = to_line(&text_line(vec![s], 2), &None, 3);
    assert_eq!(shown(&l), "      x");
    assert!(l.spans[1].style.bold);
}

fn content_w(row: &[Seg]) -> usize {
    row.iter()
        .map(|s| match s {
            Seg::Gap(g) => g.chars().count(),
            Seg::Btn { width, .. } => *width,
        })
        .sum()
}

#[test]
fn every_group_is_wide_enough_for_its_content() {
    for calendar in [false, true] {
        let tabs = [
            home_groups(calendar),
            send_receive_groups(),
            folder_groups(),
            view_groups(),
            help_groups(),
        ];
        for groups in tabs {
            for g in &groups {
                for row in [&g.rows.0, &g.rows.1] {
                    assert!(
                        g.width >= content_w(row),
                        "group {:?} width {} < content {}",
                        g.title,
                        g.width,
                        content_w(row)
                    );
                }
            }
        }
    }
}

fn has_act(r: &Ribbon, act: Act) -> bool {
    r.tab_groups[r.active].iter().any(|g| {
        g.rows
            .0
            .iter()
            .chain(g.rows.1.iter())
            .any(|s| matches!(s, Seg::Btn { act: a, .. } if *a == act))
    })
}

#[test]
fn home_has_six_tabs_and_mail_actions() {
    let r = Ribbon::new();
    assert_eq!(r.tab_label(0), Some("File"));
    assert_eq!(r.tab_label(5), Some("Help"));
    assert!(has_act(&r, Act::Compose));
    assert!(!r.tab_has_body(0));
    assert!(r.tab_has_body(1));
    assert_eq!(r.tab_label(6), None);
}

#[test]
fn set_home_context_swaps_to_calendar_actions() {
    let mut r = Ribbon::new();
    assert!(has_act(&r, Act::Compose));
    r.set_home_context(true);
    assert!(has_act(&r, Act::NewEvent));
    assert!(!has_act(&r, Act::Compose));
}

#[test]
fn the_backstage_starts_on_the_replies() {
    let b = Backstage::new();
    assert_eq!(b.selected_item(), Item::AutoReplies);
    assert_eq!(Item::Settings.label(), "Settings");
    let mut b = Backstage::default();
    b.sel = 1;
    let text = backstage::content(&b, true, false).join("\n");
    assert!(text.contains("[x] Threaded conversation view"));
    assert!(text.contains("[ ] Reminder desktop notifications"));
    b.sel = 9;
    assert_eq!(b.selected_item(), Item::Exit);
}

#[test]
fn unknown_categories_are_gray() {
    assert_eq!(preset_color("preset0"), Color::Red);
    assert_eq!(preset_color("preset24"), Color::LightMagenta);
    assert_eq!(preset_color("preset25"), Color::Gray);
    assert_eq!(preset_color("none"), Color::Gray);
    assert_eq!(color_for(&Vec::new(), "Work"), Color::Gray);
}

#[test]
fn only_what_is_expanded_is_visible() {
    let row = |id: &str, parent: Option<&str>, expanded: bool| FolderRow {
        id: id.into(),
        parent_id: parent.map(|s| s.to_string()),
        display_name: id.into(),
        total_count: 0,
        unread_count: 0,
        well_known_name: None,
        is_expanded: expanded,
    };
    let rows = vec![
        row("inbox", None, false),
        row("epam", Some("inbox"), false),
        row("sent", None, false),
    ];
    let v = build_visible(&rows);
    let ids: Vec<&str> = v.iter().map(|f| f.row.id.as_str()).collect();
    assert_eq!(ids, vec!["inbox", "sent"]);
    let rows = vec![
        row("inbox", None, true),
        row("epam", Some("inbox"), false),
        row("sent", None, false),
    ];
    let v = build_visible(&rows);
    let ids: Vec<(&str, usize)> = v.iter().map(|f| (f.row.id.as_str(), f.depth)).collect();
    assert_eq!(ids, vec![("inbox", 0), ("epam", 1), ("sent", 0)]);
}

#[test]
fn the_link_dialog_shows_the_whole_url() {
    let url = "https://acme.com/a/b?x=1";
    let mut p = LinkPrompt { url: url.to_string(), parsed: false };
    let rows = prompt_rows(&p, 10);
    assert_eq!(rows, vec!["https://ac", "me.com/a/b", "?x=1"]);
    assert_eq!(rows.concat(), url);
    assert_eq!(prompt_rows(&p, 0).len(), url.len());
    p.parsed = true;
    assert_eq!(
        prompt_rows(&p, 10),
        vec!["  protocol: https", "  host: acme.com", "  path: /a/b", "  query: x=1"]
    );
}

#[test]
fn links_in_an_event_are_cyan() {
    let row = text_line(vec![span("see ", None), span("here", Some("https://x"))], 1);
    let line = body_line(&row, 2);
    assert_eq!(shown(&line), "  see here");
    assert_eq!(line.spans[1].style.fg, None);
    assert_eq!(line.spans[2].style.fg, Some(Color::Cyan));
}

/// A picture of one pixel.
const DOT: [u8; 43] = [
    0x47, 0x49, 0x46, 0x38, 0x39, 0x61, 0x01, 0x00, 0x01, 0x00, 0x80, 0x00, 0x00, 0xff, 0xff,
    0xff, 0x00, 0x00, 0x00, 0x21, 0xf9, 0x04, 0x00, 0x00, 0x00, 0x00, 0x00, 0x2c, 0x00, 0x00,
    0x00, 0x00, 0x01, 0x00, 0x01, 0x00, 0x00, 0x02, 0x02, 0x44, 0x01, 0x00, 0x3b,
];

#[test]
fn pictures_are_decoded_within_limits() {
    let p = picture::decode(&DOT).expect("a picture");
    assert_eq!((p.width, p.height), (1, 1));
    assert_eq!(p.rgba, vec![0xff, 0xff, 0xff, 0xff]);

    // The same picture, on a screen of two by three pixels.
    let mut larger = DOT;
    larger[6] = 2;
    larger[8] = 3;
    let p = picture::decode(&larger).expect("a picture");
    assert_eq!((p.width, p.height, p.rgba.len()), (2, 3, 24));

    // The same picture, said to be 65535 pixels wide.
    let mut wide = DOT;
    wide[6] = 0xff;
    wide[7] = 0xff;
    assert!(picture::decode(&wide).is_none());

    assert!(picture::decode(b"not a picture").is_none());
}

#[test]
fn pictures_are_drawn_from_what_is_there() {
    let img = |src: ImageSource| ImageRef { src, alt: String::new() };
    let cid = img(ImageSource::Cid("logo".to_string()));
    assert!(picture::source_of(&cid, &Vec::new()).is_none());
    let fetched = vec![("x".to_string(), vec![9]), ("logo".to_string(), vec![1, 2, 3])];
    assert_eq!(picture::source_of(&cid, &fetched), Some(("cid:logo".to_string(), &[1, 2, 3][..])));
    let data = img(ImageSource::Data(b"AAAA".to_vec()));
    assert_eq!(
        picture::source_of(&data, &Vec::new()),
        Some((data_image_key(b"AAAA"), &b"AAAA"[..]))
    );
    let remote = img(ImageSource::Remote("https://x/y.png".to_string()));
    assert!(picture::source_of(&remote, &fetched).is_none());
    assert_eq!(picture::size_key("cid:logo", 40, 10), "cid:logo#40x10");
}

#[test]
fn fields_that_cannot_be_edited_are_gray() {
    assert_eq!(oofform::field_style(true, false).fg, Some(Color::DarkGray));
    assert!(!oofform::field_style(true, false).bold);
    assert!(oofform::field_style(true, true).bold);
    assert_eq!(oofform::field_style(false, true), Style::plain());
}

#[test]
fn the_decoder_is_asked_for_what_came_under_limits() {
    let asked = picture::request(&DOT);
    assert_eq!((asked.bytes, asked.side, asked.alloc), (&DOT[..], 10_000, 268_435_456));
}

#[test]
fn a_blank_protocol_is_left_out() {
    assert_eq!(parse_url_parts("://acme.com"), vec![("host", "acme.com".to_string())]);
}

#[test]
fn wide_names_do_not_push_the_count_out() {
    let mut v = inbox(12);
    v.row.display_name = "\u{6536}\u{4ef6}\u{7bb1}\u{6536}\u{4ef6}\u{7bb1}".to_string();
    let line = folder_line(&v, 12);
    // Two columns before the name, three wide characters, the blank and the count.
    assert_eq!(line.spans[0].text, "  \u{6536}\u{4ef6}\u{7bb1}  ");
    assert_eq!(line.spans[1].text, "12");
    assert_eq!(measure(&line.spans[0].text) + measure(&line.spans[1].text), 12);
}

#[test]
fn buttons_count_group_by_group() {
    let r = Ribbon::new();
    assert_eq!(r.act_at(0, 0), None);
    assert_eq!(r.act_at(1, 0), Some(Act::Compose));
    assert_eq!(r.act_at(1, 1), Some(Act::Reply));
    assert_eq!(r.act_at(1, 99), None);
    assert_eq!(r.act_at(9, 0), None);
}

#[test]
fn links_are_placed_in_columns() {
    let row = text_line(
        vec![span("\u{6536}\u{4ef6} ", None), span("\u{7bb1}!", Some("https://x"))],
        1,
    );
    let layout = body_layout(&vec![row], &None, 2);
    assert_eq!(layout.links.len(), 1);
    assert_eq!((layout.links[0].col, layout.links[0].width), (7, 3));
}

#[test]
fn the_link_dialog_is_wrapped_in_columns() {
    let p = LinkPrompt { url: "https://\u{6536}\u{4ef6}".to_string(), parsed: false };
    assert_eq!(prompt_rows(&p, 9), vec!["https://".to_string(), "\u{6536}\u{4ef6}".to_string()]);
    assert_eq!(prompt_rows(&p, 10)[0], "https://\u{6536}");
}

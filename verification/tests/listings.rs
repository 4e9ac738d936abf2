use container_manager::parser::{
    container_from_fields, parse_container_line, parse_container_listing, parse_image_line,
    parse_image_listing, scan_container_listing, ParseWarning, CONTAINER_FIELDS,
};
use container_manager::records::{copy_containers, copy_images, Container, Image};
use container_manager::text::to_chars;

fn web() -> Container {
    Container {
        name: "web".to_string(),
        status: "Up 2 hours".to_string(),
        image: "nginx:latest".to_string(),
        id: "abc123".to_string(),
        ports: "80/tcp".to_string(),
        command: "nginx -g daemon off;".to_string(),
        created: "2024-01-01".to_string(),
    }
}

fn db() -> Container {
    Container {
        name: "db".to_string(),
        status: "Exited (0) 3 days ago".to_string(),
        image: "postgres:14".to_string(),
        id: "def456".to_string(),
        ports: String::new(),
        command: "\"docker-entrypoint.s…\"".to_string(),
        created: "2023-12-24 10:00:00 +0000 UTC".to_string(),
    }
}

const WEB_LINE: &str =
    "web\tUp 2 hours\tnginx:latest\tabc123\t80/tcp\tnginx -g daemon off;\t2024-01-01";
const DB_LINE: &str = "db\tExited (0) 3 days ago\tpostgres:14\tdef456\t\t\"docker-entrypoint.s…\"\t2023-12-24 10:00:00 +0000 UTC";

#[test]
fn listing_line_parses_to_one_running_container() {
    let records = parse_container_listing(WEB_LINE);
    assert_eq!(records.len(), 1);
    assert_eq!(records[0], web());
    assert!(records[0].status.contains("Up"));
    assert!(records[0].is_running());
    assert_eq!(records[0].ports, "80/tcp");
}

#[test]
fn fields_keep_their_order() {
    let c = parse_container_line("n\ts\ti\td\tp\tc\tt").unwrap();
    assert_eq!(c.name, "n");
    assert_eq!(c.status, "s");
    assert_eq!(c.image, "i");
    assert_eq!(c.id, "d");
    assert_eq!(c.ports, "p");
    assert_eq!(c.command, "c");
    assert_eq!(c.created, "t");
}

#[test]
fn seven_fields_are_needed() {
    assert_eq!(CONTAINER_FIELDS, 7);
    assert_eq!(parse_container_line("a\tb\tc\td\te\tf"), None);
    assert_eq!(parse_container_line(""), None);
    assert!(parse_container_line("a\tb\tc\td\te\tf\t").is_some());
    assert!(parse_container_line("\t\t\t\t\t\t").is_some());
}

#[test]
fn fields_after_the_seventh_are_not_read() {
    let c = parse_container_line("n\ts\ti\td\tp\tc\tt\textra\tmore").unwrap();
    assert_eq!(c.created, "t");
    assert_eq!(c.name, "n");
}

#[test]
fn container_from_fields_reads_the_first_seven() {
    let fields: Vec<Vec<char>> =
        ["n", "s", "i", "d", "p", "c", "t", "u"].iter().map(|f| to_chars(f)).collect();
    let c = container_from_fields(&fields).unwrap();
    assert_eq!(c.command, "c");
    assert_eq!(c.created, "t");
    assert_eq!(container_from_fields(&fields[..6].to_vec()), None);
}

#[test]
fn malformed_lines_are_skipped_and_the_rest_is_kept() {
    let bad_lines = ["", "garbage", "a\tb", "only\tsix\tfields\tin\tthis\tline", "   "];
    for bad in bad_lines {
        let listing = format!("{}\n{}\n{}\n", WEB_LINE, bad, DB_LINE);
        assert_eq!(parse_container_listing(&listing), vec![web(), db()], "bad line {:?}", bad);
        let listing = format!("{}\n{}\n{}", bad, WEB_LINE, DB_LINE);
        assert_eq!(parse_container_listing(&listing), vec![web(), db()]);
        let listing = format!("{}\r\n{}\r\n{}", WEB_LINE, DB_LINE, bad);
        assert_eq!(parse_container_listing(&listing), vec![web(), db()]);
    }
}

#[test]
fn a_listing_of_bad_lines_only_is_empty_not_fatal() {
    assert_eq!(parse_container_listing("x\ny\n\nz"), Vec::<Container>::new());
    assert_eq!(parse_container_listing(""), Vec::<Container>::new());
}

#[test]
fn carriage_returns_end_lines_but_are_kept_inside() {
    let listing = format!("{}\r\n{}\r\n", WEB_LINE, DB_LINE);
    assert_eq!(parse_container_listing(&listing), vec![web(), db()]);
    let c = parse_container_listing("n\ts\ti\td\tp\tc\tt\r").pop().unwrap();
    assert_eq!(c.created, "t\r");
}

#[test]
fn warnings_name_the_line_and_its_field_count() {
    let listing = format!("{}\nbroken\n{}\na\tb\tc\n\n", WEB_LINE, DB_LINE);
    let scanned = scan_container_listing(&listing);
    assert_eq!(scanned.records, vec![web(), db()]);
    assert_eq!(
        scanned.warnings,
        vec![
            ParseWarning { line: 1, fields: 1 },
            ParseWarning { line: 3, fields: 3 },
            ParseWarning { line: 4, fields: 1 },
        ]
    );
    assert!(scan_container_listing(WEB_LINE).warnings.is_empty());
}

#[test]
fn running_goes_by_the_status() {
    assert!(web().is_running());
    assert!(!db().is_running());
    let mut c = db();
    c.status = "up".to_string();
    assert!(!c.is_running());
}

#[test]
fn copies_are_equal_and_independent() {
    let source = vec![web(), db()];
    let mut copy = copy_containers(&source);
    assert_eq!(copy, source);
    copy[0].name.push('!');
    assert_eq!(source[0].name, "web");
    assert_eq!(web().duplicate(), web());
    let images = vec![Image { name: "a".to_string(), tag: "1".to_string() }];
    assert_eq!(copy_images(&images), images);
    assert_eq!(images[0].duplicate(), images[0]);
}

#[test]
fn image_reference_is_name_colon_tag() {
    let image = Image { name: "postgres".to_string(), tag: "14".to_string() };
    assert_eq!(image.reference(), "postgres:14");
    let bare = Image { name: String::new(), tag: String::new() };
    assert_eq!(bare.reference(), ":");
}

#[test]
fn image_needs_both_parts() {
    let n = || Some("nginx".to_string());
    let t = || Some("latest".to_string());
    assert_eq!(
        Image::from_parts(n(), t()),
        Some(Image { name: "nginx".to_string(), tag: "latest".to_string() })
    );
    assert_eq!(Image::from_parts(None, t()), None);
    assert_eq!(Image::from_parts(n(), None), None);
    assert_eq!(Image::from_parts(None, None), None);
}

#[test]
fn image_line_is_a_json_object_with_name_and_tag() {
    assert_eq!(
        parse_image_line("{\"name\":\"nginx\",\"tag\":\"latest\"}"),
        Some(Image { name: "nginx".to_string(), tag: "latest".to_string() })
    );
    assert_eq!(
        parse_image_line("  { \"tag\" : \"1\", \"size\": 12, \"name\" : \"re\\\"dis\" } "),
        Some(Image { name: "re\"dis".to_string(), tag: "1".to_string() })
    );
}

#[test]
fn image_line_that_holds_no_image_gives_none() {
    let bad = [
        "",
        "not json",
        "{\"name\":\"nginx\"}",
        "{\"tag\":\"latest\"}",
        "{\"name\":1,\"tag\":\"latest\"}",
        "{\"name\":\"nginx\",\"tag\":null}",
        "{\"name\":\"nginx\",\"tag\":[\"latest\"]}",
        "[\"nginx\",\"latest\"]",
        "\"name\"",
        "{\"name\":\"nginx\",\"tag\":\"latest\"} trailing",
        "{\"Name\":\"nginx\",\"Tag\":\"latest\"}",
    ];
    for line in bad {
        assert_eq!(parse_image_line(line), None, "line {:?}", line);
    }
}

#[test]
fn image_lines_are_decoded_one_by_one() {
    let raw = "{\"name\":\"nginx\",\"tag\":\"latest\"}\nnot json\n{\"name\":\"db\"}\n\n{\"tag\":\"1\",\"name\":\"redis\",\"x\":3}\r\n";
    let images = parse_image_listing(raw);
    assert_eq!(
        images,
        vec![
            Image { name: "nginx".to_string(), tag: "latest".to_string() },
            Image { name: "redis".to_string(), tag: "1".to_string() },
        ]
    );
    assert_eq!(parse_image_listing(""), Vec::<Image>::new());
}

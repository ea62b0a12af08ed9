use site_archiver::archiver::Category;
use site_archiver::html::{HtmlRecord, ResourceOutcome};

fn sample_page() -> String {
    String::from(
        "<html><head>\
         <link rel=\"stylesheet\" href=\"style.css\">\
         <link rel=\"icon\" href=\"favicon.ico\">\
         <link href=\"bare.css\">\
         </head><body>\
         <img src=\"/logo.png\">\
         <img src=\"data:image/png;base64,iVBORw0KGgo=\">\
         <img>\
         <script src=\"main.js\"></script>\
         <script>var x = 1;</script>\
         </body></html>",
    )
}

fn sample_record() -> HtmlRecord {
    HtmlRecord::with_timestamp(
        String::from("http://example.com/a/b"),
        sample_page(),
        String::from("01-01-2020-00:00:00"),
    )
}

#[test]
fn image_links_exclude_inline_data() {
    let links = sample_record().get_image_links().unwrap().unwrap();
    assert_eq!(
        links,
        vec![(String::from("/logo.png"), String::from("http://example.com/logo.png"))]
    );
}

#[test]
fn stylesheet_links_need_the_exact_relation() {
    // the icon link and the link without a relation are skipped
    let links = sample_record().get_css_links().unwrap().unwrap();
    assert_eq!(
        links,
        vec![(String::from("style.css"), String::from("http://example.com/a/style.css"))]
    );
}

#[test]
fn script_links_need_a_source() {
    let links = sample_record().get_js_links().unwrap().unwrap();
    assert_eq!(
        links,
        vec![(String::from("main.js"), String::from("http://example.com/a/main.js"))]
    );
}

#[test]
fn empty_page_has_no_links() {
    let record = HtmlRecord::with_timestamp(
        String::from("http://example.com/"),
        String::from("<html><body>plain</body></html>"),
        String::from("T"),
    );
    assert!(record.get_image_links().unwrap().is_none());
    assert!(record.get_css_links().unwrap().is_none());
    assert!(record.get_js_links().unwrap().is_none());
}

#[test]
fn duplicate_references_are_kept_once() {
    let record = HtmlRecord::with_timestamp(
        String::from("http://example.com/"),
        String::from("<img src=\"/logo.png\"><img src=\"/logo.png\">"),
        String::from("T"),
    );
    assert_eq!(record.get_image_links().unwrap().unwrap().len(), 1);
}

#[test]
fn distinct_literals_for_one_target_stay_distinct() {
    let record = HtmlRecord::with_timestamp(
        String::from("http://example.com/"),
        String::from("<img src=\"/logo.png\"><img src=\"http://example.com/logo.png\">"),
        String::from("T"),
    );
    let links = record.get_image_links().unwrap().unwrap();
    assert_eq!(links.len(), 2);
    assert_eq!(links[0].1, links[1].1);
}

#[test]
fn localized_page_points_at_saved_copies() {
    let mut record = sample_record();
    record.apply_resource_outcome(
        "/logo.png",
        Category::Image,
        ResourceOutcome::Saved(String::from("logo.png")),
    );
    record.apply_resource_outcome(
        "style.css",
        Category::Stylesheet,
        ResourceOutcome::Saved(String::from("style.css")),
    );
    record.apply_resource_outcome(
        "main.js",
        Category::Script,
        ResourceOutcome::Saved(String::from("main.js")),
    );
    assert!(record.body.contains("src=\"./images/logo.png\""));
    assert!(record.body.contains("href=\"./css/style.css\""));
    assert!(record.body.contains("src=\"./js/main.js\""));
    assert!(!record.body.contains("src=\"/logo.png\""));
}

#[test]
fn failed_fetch_keeps_the_original_reference() {
    let mut record = sample_record();
    record.apply_resource_outcome(
        "/logo.png",
        Category::Image,
        ResourceOutcome::Saved(String::from("logo.png")),
    );
    record.apply_resource_outcome("style.css", Category::Stylesheet, ResourceOutcome::Skipped);
    record.apply_resource_outcome(
        "main.js",
        Category::Script,
        ResourceOutcome::Saved(String::from("main.js")),
    );
    assert!(record.body.contains("href=\"style.css\""));
    assert!(record.body.contains("src=\"./images/logo.png\""));
    assert!(record.body.contains("src=\"./js/main.js\""));
}

#[test]
fn record_keeps_origin_body_and_timestamp() {
    let record = sample_record();
    assert_eq!(record.origin, "http://example.com/a/b");
    assert_eq!(record.date_time, "01-01-2020-00:00:00");
    assert!(record.body.contains("<img src=\"/logo.png\">"));
}

#[test]
fn fresh_record_timestamp_is_wellformed() {
    let record = HtmlRecord::new(
        String::from("http://example.com/"),
        String::from("<html></html>"),
    );
    assert_eq!(record.date_time.len(), 19);
    assert!(record.date_time.chars().all(|c| c.is_ascii_digit() || c == '-' || c == ':'));
}

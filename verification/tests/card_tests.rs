use og_image_worker::card::generate_baby_name_svg;
use og_image_worker::card::generate_word_svg;
use og_image_worker::card::story_offset;
use og_image_worker::card::CardTemplate;
use og_image_worker::decimal::decimal_string;

fn meaning_row(y: usize, line: &str) -> String {
    format!(
        r##"  <text x="600" y="{}" font-family="system-ui, -apple-system, sans-serif" font-size="28" fill="#000000" text-anchor="middle">{}</text>"##,
        y, line
    )
}

fn story_row(y: usize, line: &str) -> String {
    format!(
        r##"  <text x="600" y="{}" font-family="system-ui, -apple-system, sans-serif" font-size="22" fill="#333333" text-anchor="middle">{}</text>"##,
        y, line
    )
}

fn baby_name_card(name: &str, pronunciation: &str, meaning: &str, story: &str) -> String {
    format!(
        r##"<svg width="1200" height="630" viewBox="0 0 1200 630" xmlns="http://www.w3.org/2000/svg">
  <!-- Background with 4px border -->
  <rect width="1200" height="630" fill="#FFFFFF" rx="4"/>
  <rect x="4" y="4" width="1192" height="622" fill="#FFFFFF" stroke="#000000" stroke-width="4" rx="4"/>

  <!-- Rounded rect box for name -->
  <rect x="100" y="140" width="1000" height="140" rx="20" fill="#FFFFFF" stroke="#000000" stroke-width="2"/>

  <!-- Name (centered in box) -->
  <text x="600" y="230" font-family="system-ui, -apple-system, sans-serif" font-size="72" font-weight="bold" fill="#000000" text-anchor="middle">{}</text>

  <!-- Pronunciation -->
  <text x="600" y="310" font-family="system-ui, -apple-system, sans-serif" font-size="24" fill="#666666" text-anchor="middle" font-style="italic">{}</text>

  <!-- Meaning -->
{}

  <!-- Story -->
{}

  <!-- Branding -->
  <text x="60" y="590" font-family="system-ui, -apple-system, sans-serif" font-size="20" fill="#666666">sanskrit.roj.app</text>
</svg>"##,
        name, pronunciation, meaning, story
    )
}

fn word_card(sanskrit: &str, transliteration: &str, meaning: &str) -> String {
    format!(
        r##"<svg width="1200" height="630" viewBox="0 0 1200 630" xmlns="http://www.w3.org/2000/svg">
  <!-- Background with 4px border -->
  <rect width="1200" height="630" fill="#FFFFFF" rx="4"/>
  <rect x="4" y="4" width="1192" height="622" fill="#FFFFFF" stroke="#000000" stroke-width="4" rx="4"/>

  <!-- Title -->
  <text x="600" y="80" font-family="system-ui, -apple-system, sans-serif" font-size="24" fill="#666666" text-anchor="middle">Sanskrit Word of the Day</text>

  <!-- Rounded rect box for word -->
  <rect x="150" y="150" width="900" height="180" rx="20" fill="#FFFFFF" stroke="#000000" stroke-width="2"/>

  <!-- Sanskrit word (centered in box) -->
  <text x="600" y="270" font-family="system-ui, -apple-system, sans-serif" font-size="90" font-weight="bold" fill="#000000" text-anchor="middle">{}</text>

  <!-- Transliteration -->
  <text x="600" y="370" font-family="system-ui, -apple-system, sans-serif" font-size="32" fill="#666666" text-anchor="middle" font-style="italic">{}</text>

  <!-- Meaning -->
{}

  <!-- Branding -->
  <text x="60" y="590" font-family="system-ui, -apple-system, sans-serif" font-size="20" fill="#666666">sanskrit.roj.app</text>
</svg>"##,
        sanskrit, transliteration, meaning
    )
}

#[test]
fn baby_name_card_with_a_short_meaning_and_no_story() {
    let markup = generate_baby_name_svg("Asha", "AH-shah", "Hope", "", "");
    assert_eq!(
        markup,
        baby_name_card("Asha", "AH-shah", &meaning_row(360, "Hope"), "")
    );
    assert!(markup.contains(">Asha<"));
    assert!(markup.contains(">AH-shah<"));
    assert!(!markup.contains("font-size=\"22\""));
}

#[test]
fn baby_name_card_with_nothing_given() {
    let markup = generate_baby_name_svg("", "", "", "", "");
    assert_eq!(markup, baby_name_card("", "", "", ""));
}

#[test]
fn baby_name_card_wraps_the_meaning_at_sixty() {
    let meaning = "One who brings hope and light to everyone around her in the darkest of \
                   times and the brightest of days alike";
    let markup = generate_baby_name_svg("Asha", "AH-shah", meaning, "", "female");
    let rows = [
        meaning_row(360, "One who brings hope and light to everyone around her in the"),
        meaning_row(395, "darkest of times and the brightest of days alike"),
    ]
    .join("\n");
    assert_eq!(markup, baby_name_card("Asha", "AH-shah", &rows, ""));
}

#[test]
fn baby_name_card_puts_the_story_below_the_meaning() {
    let meaning = "One who brings hope and light to everyone around her in the darkest of \
                   times and the brightest of days alike";
    let story = "In the old tales Asha walks ahead of the dawn, and where she has passed the \
                 fields wake and the rivers remember their names.";
    let markup = generate_baby_name_svg("Asha", "AH-shah", meaning, story, "");
    let meaning_rows = [
        meaning_row(360, "One who brings hope and light to everyone around her in the"),
        meaning_row(395, "darkest of times and the brightest of days alike"),
    ]
    .join("\n");
    let story_rows = [
        story_row(
            460,
            "In the old tales Asha walks ahead of the dawn, and where she has passed the",
        ),
        story_row(488, "fields wake and the rivers remember their names."),
    ]
    .join("\n");
    assert_eq!(
        markup,
        baby_name_card("Asha", "AH-shah", &meaning_rows, &story_rows)
    );
}

#[test]
fn baby_name_card_with_a_story_and_no_meaning() {
    let markup = generate_baby_name_svg("A", "b", "", "Once", "");
    assert_eq!(markup, baby_name_card("A", "b", "", &story_row(390, "Once")));
}

#[test]
fn baby_name_card_with_a_story_of_white_space_has_no_story_rows() {
    let markup = generate_baby_name_svg("A", "b", "c", "  \n ", "");
    assert_eq!(markup, baby_name_card("A", "b", &meaning_row(360, "c"), ""));
}

#[test]
fn baby_name_card_does_not_show_the_gender() {
    let one = generate_baby_name_svg("Asha", "AH-shah", "Hope", "A story", "female");
    let other = generate_baby_name_svg("Asha", "AH-shah", "Hope", "A story", "male");
    assert_eq!(one, other);
    assert!(!one.contains("female"));
}

#[test]
fn baby_name_card_escapes_every_field() {
    let markup = generate_baby_name_svg("<A&B>", "\"x\"", "<script>", "it's", "");
    assert_eq!(
        markup,
        baby_name_card(
            "&lt;A&amp;B&gt;",
            "&quot;x&quot;",
            &meaning_row(360, "&lt;script&gt;"),
            &story_row(425, "it&apos;s")
        )
    );
    assert!(markup.contains("&lt;script&gt;"));
    assert!(!markup.contains("<script>"));
}

#[test]
fn baby_name_card_wraps_before_it_escapes() {
    let meaning = "<<<<<<<<<< <<<<<<<<<< <<<<<<<<<< <<<<<<<<<< <<<<<<<<<< <<<<< <<";
    let markup = generate_baby_name_svg("n", "p", meaning, "", "");
    let first = "&lt;".repeat(10);
    let line = [
        first.clone(),
        first.clone(),
        first.clone(),
        first.clone(),
        first.clone(),
        "&lt;".repeat(5),
    ]
    .join(" ");
    let rows = [meaning_row(360, &line), meaning_row(395, "&lt;&lt;")].join("\n");
    assert_eq!(markup, baby_name_card("n", "p", &rows, ""));
}

#[test]
fn word_card_with_a_short_meaning() {
    let markup = generate_word_svg("धर्म", "dharma", "duty, righteousness");
    assert_eq!(
        markup,
        word_card("धर्म", "dharma", &meaning_row(420, "duty, righteousness"))
    );
}

#[test]
fn word_card_wraps_the_meaning_at_seventy() {
    let meaning = "that which upholds: the order of things, the duty that falls to each, and \
                   the right way of living that follows from both of them together";
    let markup = generate_word_svg("धर्म", "dharma", meaning);
    let rows = [
        meaning_row(
            420,
            "that which upholds: the order of things, the duty that falls to each,",
        ),
        meaning_row(
            452,
            "and the right way of living that follows from both of them together",
        ),
    ]
    .join("\n");
    assert_eq!(markup, word_card("धर्म", "dharma", &rows));
}

#[test]
fn word_card_with_nothing_given() {
    assert_eq!(generate_word_svg("", "", ""), word_card("", "", ""));
}

#[test]
fn word_card_escapes_every_field() {
    let markup = generate_word_svg("a&b", "<i>", "'q'");
    assert_eq!(
        markup,
        word_card("a&amp;b", "&lt;i&gt;", &meaning_row(420, "&apos;q&apos;"))
    );
}

#[test]
fn story_offset_is_thirty_below_the_line_after_the_meaning() {
    assert_eq!(story_offset(0), 390);
    assert_eq!(story_offset(1), 425);
    assert_eq!(story_offset(2), 460);
    assert_eq!(story_offset(10), 740);
    for lines in 0..50usize {
        assert!(story_offset(lines) > 360 + (lines as u128) * 35);
    }
    assert_eq!(
        story_offset(usize::MAX),
        360 + (usize::MAX as u128) * 35 + 30
    );
}

#[test]
fn rendering_twice_gives_the_same_document() {
    let card = CardTemplate::BabyName {
        name: "Asha".to_string(),
        pronunciation: "AH-shah".to_string(),
        meaning: "Hope & light".to_string(),
        story: "A <short> story".to_string(),
        gender: "female".to_string(),
    };
    let first = card.render();
    let second = card.clone().render();
    assert_eq!(first, second);
    assert_eq!(first.markup().as_bytes(), second.markup().as_bytes());
}

#[test]
fn render_of_a_baby_name_card() {
    let card = CardTemplate::BabyName {
        name: "Asha".to_string(),
        pronunciation: "AH-shah".to_string(),
        meaning: "Hope".to_string(),
        story: String::new(),
        gender: String::new(),
    };
    let doc = card.render();
    assert_eq!(
        doc.markup(),
        generate_baby_name_svg("Asha", "AH-shah", "Hope", "", "")
    );
    assert_eq!(doc.content_type(), "image/svg+xml");
    assert_eq!(doc.cache_control(), "public, max-age=31536000, immutable");
}

#[test]
fn render_of_a_word_card() {
    let card = CardTemplate::WordOfDay {
        sanskrit: "धर्म".to_string(),
        transliteration: "dharma".to_string(),
        meaning: "duty".to_string(),
    };
    let doc = card.render();
    assert_eq!(doc.markup(), generate_word_svg("धर्म", "dharma", "duty"));
    assert_eq!(doc.content_type(), "image/svg+xml");
    assert_eq!(doc.cache_control(), "public, max-age=3600");
}

#[test]
fn decimal_string_writes_numbers_without_leading_zeros() {
    assert_eq!(decimal_string(0), "0");
    assert_eq!(decimal_string(9), "9");
    assert_eq!(decimal_string(10), "10");
    assert_eq!(decimal_string(360), "360");
    assert_eq!(decimal_string(1005), "1005");
    assert_eq!(decimal_string(u128::MAX), u128::MAX.to_string());
}

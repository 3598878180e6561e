use xkcd::cli::{Args, OutFormat};
use xkcd::client::{last_segment, Comic, ComicResponse, XkcdClient};
use xkcd::XkcdError;

fn example_body() -> String {
    String::from(
        "{\"month\":\"1\",\"num\":500,\"link\":\"\",\"year\":\"2009\",\"news\":\"\",\
         \"safe_title\":\"Election\",\"transcript\":\"\",\"alt\":\"desc text\",\
         \"img\":\"https://imgs.xkcd.com/comics/election.png\",\"title\":\"Election\",\
         \"day\":\"2\"}",
    )
}

fn example_comic() -> Comic {
    let resp = ComicResponse::from_json(&example_body()).unwrap();
    Comic::from_response(resp)
}

#[test]
fn conversion_builds_date_from_day_month_year() {
    let resp = ComicResponse::from_json(&example_body()).unwrap();
    assert_eq!(resp.day, "2");
    assert_eq!(resp.month, "1");
    assert_eq!(resp.year, "2009");
    let comic = Comic::from_response(resp);
    assert_eq!(comic.date, "2-1-2009");
}

#[test]
fn conversion_keeps_date_fields_even_when_not_numeric() {
    let resp = ComicResponse::from_fields(
        Some(String::from("Jan")),
        Some(7),
        Some(String::new()),
        Some(String::from("????")),
        Some(String::new()),
        Some(String::new()),
        Some(String::new()),
        Some(String::from("alt text")),
        Some(String::from("https://example.com/x.png")),
        Some(String::from("A Title")),
        Some(String::from("32")),
    )
    .unwrap();
    let comic = Comic::from_response(resp);
    assert_eq!(comic.date, "32-Jan-????");
    assert_eq!(comic.title, "A Title");
    assert_eq!(comic.num, 7);
}

#[test]
fn conversion_copies_alt_and_img() {
    let resp = ComicResponse::from_json(&example_body()).unwrap();
    let alt = resp.alt.clone();
    let img = resp.img.clone();
    let comic = Comic::from_response(resp);
    assert_eq!(comic.desc, alt);
    assert_eq!(comic.img_url, img);
}

#[test]
fn text_output_matches_example_scenario() {
    let comic = example_comic();
    let text = comic.render(OutFormat::Text);
    assert_eq!(
        text,
        "Title: Election\n\
         Comic No: 500\n\
         Date: 2-1-2009\n\
         Description: desc text\n\
         Image: https://imgs.xkcd.com/comics/election.png\n"
    );
}

#[test]
fn text_output_is_five_labeled_lines_in_order() {
    let comic = example_comic();
    let text = comic.render(OutFormat::Text);
    let again = comic.render(OutFormat::Text);
    assert_eq!(text, again);
    assert_eq!(text.matches('\n').count(), 5);
    let lines: Vec<&str> = text.lines().collect();
    assert_eq!(lines.len(), 5);
    assert!(lines[0].starts_with("Title: "));
    assert!(lines[1].starts_with("Comic No: "));
    assert!(lines[2].starts_with("Date: "));
    assert!(lines[3].starts_with("Description: "));
    assert!(lines[4].starts_with("Image: "));
}

#[test]
fn json_output_is_the_compact_object() {
    let comic = example_comic();
    let json = comic.render(OutFormat::Json);
    assert_eq!(
        json,
        "{\"title\":\"Election\",\"num\":500,\"date\":\"2-1-2009\",\
         \"desc\":\"desc text\",\"img_url\":\"https://imgs.xkcd.com/comics/election.png\"}"
    );
}

#[test]
fn json_output_round_trips_through_a_decoder() {
    let comic = example_comic();
    let json = comic.render(OutFormat::Json);
    let v: serde_json::Value = serde_json::from_str(&json).unwrap();
    assert_eq!(v["title"].as_str().unwrap(), comic.title);
    assert_eq!(v["num"].as_u64().unwrap(), comic.num as u64);
    assert_eq!(v["date"].as_str().unwrap(), comic.date);
    assert_eq!(v["desc"].as_str().unwrap(), comic.desc);
    assert_eq!(v["img_url"].as_str().unwrap(), comic.img_url);
}

#[test]
fn json_output_round_trips_with_awkward_characters() {
    let comic = Comic {
        title: String::from("He said \"hi\" \\ bye"),
        num: 0,
        date: String::from("1-\n-2009"),
        desc: String::from("tab\there, bell\u{7}, unicode \u{e9}\u{4e16}"),
        img_url: String::from("https://example.com/a b.png"),
    };
    let json = comic.render(OutFormat::Json);
    let v: serde_json::Value = serde_json::from_str(&json).unwrap();
    assert_eq!(v["title"].as_str().unwrap(), comic.title);
    assert_eq!(v["num"].as_u64().unwrap(), 0);
    assert_eq!(v["date"].as_str().unwrap(), comic.date);
    assert_eq!(v["desc"].as_str().unwrap(), comic.desc);
    assert_eq!(v["img_url"].as_str().unwrap(), comic.img_url);
}

#[test]
fn latest_and_explicit_urls_differ() {
    let latest = XkcdClient::new(Args {
        timeout: 30,
        output: OutFormat::Text,
        num: None,
        save: false,
    });
    let explicit = XkcdClient::new(Args {
        timeout: 30,
        output: OutFormat::Text,
        num: Some(500),
        save: false,
    });
    let latest_url = latest.request_url();
    let explicit_url = explicit.request_url();
    assert_eq!(latest_url, "https://xkcd.com/info.0.json");
    assert_eq!(explicit_url, "https://xkcd.com/500/info.0.json");
    assert_ne!(latest_url, explicit_url);
}

#[test]
fn malformed_json_is_a_parse_error() {
    let client = XkcdClient::new(Args {
        timeout: 30,
        output: OutFormat::Text,
        num: None,
        save: false,
    });
    let r = client.comic_from_body("{not json");
    assert_eq!(r.err().unwrap(), XkcdError::ParseError);
    assert_eq!(
        ComicResponse::from_json("{not json").err().unwrap(),
        XkcdError::ParseError
    );
}

#[test]
fn missing_field_is_a_parse_error() {
    let body = "{\"month\":\"1\",\"num\":500,\"link\":\"\",\"year\":\"2009\",\"news\":\"\",\
                \"safe_title\":\"Election\",\"transcript\":\"\",\
                \"img\":\"https://imgs.xkcd.com/comics/election.png\",\"title\":\"Election\",\
                \"day\":\"2\"}";
    assert_eq!(
        ComicResponse::from_json(body).err().unwrap(),
        XkcdError::ParseError
    );
}

#[test]
fn wrongly_typed_field_is_a_parse_error() {
    let body = "{\"month\":\"1\",\"num\":\"500\",\"link\":\"\",\"year\":\"2009\",\"news\":\"\",\
                \"safe_title\":\"Election\",\"transcript\":\"\",\"alt\":\"desc text\",\
                \"img\":\"https://imgs.xkcd.com/comics/election.png\",\"title\":\"Election\",\
                \"day\":\"2\"}";
    assert_eq!(
        ComicResponse::from_json(body).err().unwrap(),
        XkcdError::ParseError
    );
}

#[test]
fn negative_num_is_a_parse_error() {
    let body = "{\"month\":\"1\",\"num\":-5,\"link\":\"\",\"year\":\"2009\",\"news\":\"\",\
                \"safe_title\":\"Election\",\"transcript\":\"\",\"alt\":\"desc text\",\
                \"img\":\"https://imgs.xkcd.com/comics/election.png\",\"title\":\"Election\",\
                \"day\":\"2\"}";
    assert_eq!(
        ComicResponse::from_json(body).err().unwrap(),
        XkcdError::ParseError
    );
}

#[test]
fn oversized_num_is_a_parse_error() {
    let body = "{\"month\":\"1\",\"num\":18446744073709551616,\"link\":\"\",\"year\":\"2009\",\
                \"news\":\"\",\"safe_title\":\"Election\",\"transcript\":\"\",\
                \"alt\":\"desc text\",\"img\":\"https://imgs.xkcd.com/comics/election.png\",\
                \"title\":\"Election\",\"day\":\"2\"}";
    assert_eq!(
        ComicResponse::from_json(body).err().unwrap(),
        XkcdError::ParseError
    );
}

#[test]
fn missing_field_in_from_fields_is_a_parse_error() {
    let r = ComicResponse::from_fields(
        Some(String::from("1")),
        Some(500),
        Some(String::new()),
        Some(String::from("2009")),
        Some(String::new()),
        Some(String::from("Election")),
        Some(String::new()),
        None,
        Some(String::from("https://imgs.xkcd.com/comics/election.png")),
        Some(String::from("Election")),
        Some(String::from("2")),
    );
    assert_eq!(r.err().unwrap(), XkcdError::ParseError);
}

#[test]
fn image_file_name_is_the_last_path_segment() {
    let comic = example_comic();
    assert_eq!(comic.image_file_name().unwrap(), "election.png");
}

#[test]
fn unparseable_image_url_is_an_invalid_url_error() {
    let mut comic = example_comic();
    comic.img_url = String::from("not a url");
    assert_eq!(comic.image_file_name().err().unwrap(), XkcdError::InvalidUrlError);
}

#[test]
fn image_url_without_path_segments_is_an_invalid_url_error() {
    let mut comic = example_comic();
    comic.img_url = String::from("mailto:someone@example.com");
    assert_eq!(comic.image_file_name().err().unwrap(), XkcdError::InvalidUrlError);
}

#[test]
fn last_segment_picks_the_final_element() {
    let empty: Vec<String> = Vec::new();
    assert!(last_segment(&empty).is_none());
    let segs = vec![String::from("comics"), String::from("election.png")];
    assert_eq!(last_segment(&segs).unwrap(), "election.png");
}

#[test]
fn printing_succeeds_in_both_formats() {
    let comic = example_comic();
    assert!(comic.print(OutFormat::Text).is_ok());
    assert!(comic.print(OutFormat::Json).is_ok());
}

#[test]
fn client_keeps_its_configuration() {
    let client = XkcdClient::new(Args {
        timeout: 5,
        output: OutFormat::Json,
        num: Some(3),
        save: true,
    });
    assert_eq!(client.args.timeout, 5);
    assert_eq!(client.args.output, OutFormat::Json);
    assert_eq!(client.args.num, Some(3));
    assert!(client.args.save);
}

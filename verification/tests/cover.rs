use base64::Engine;
use pw_cast::cover::{cover_fits, generate_cover_svg_base64, make_cover, make_data_uri};

fn expected(title: &str) -> String {
    [
        "<svg height=\"900\" width=\"900\" xmlns=\"http://www.w3.org/2000/svg\">",
        "<rect fill=\"#931C1C\" height=\"900\" width=\"900\"/>",
        "<path d=\"M0 607L129 529L257 646L386 532L514 615L643 616L771 673L900 567L900 901L771 901L643 901L514 901L386 901L257 901L129 901L0 901Z\" fill=\"#f5730\"/>",
        "<path d=\"M0 609L129 664L257 633L386 639L514 715L643 617L771 685L900 595L900 901L771 901L643 901L514 901L386 901L257 901L129 901L0 901Z\" fill=\"#da5b09\"/>",
        "<path d=\"M0 664L129 689L257 725L386 666L514 725L643 685L771 682L900 690L900 901L771 901L643 901L514 901L386 901L257 901L129 901L0 901Z\" fill=\"#be4407\"/>",
        "<path d=\"M0 812L129 811L257 729L386 779L514 769L643 742L771 733L900 756L900 901L771 901L643 901L514 901L386 901L257 901L129 901L0 901Z\" fill=\"#a32d04\"/>",
        "<path d=\"M0 810L129 857L257 792L386 852L514 826L643 831L771 842L900 855L900 901L771 901L643 901L514 901L386 901L257 901L129 901L0 901Z\" fill=\"#871400\"/>",
        "<foreignObject height=\"880\" width=\"880\" x=\"10\" y=\"10\">",
        "<div xmlns=\"http://www.w3.org/1999/xhtml\" ",
        "                    style=\"width:100%; height:100%; display:flex; justify-content:center; align-items:center; text-align:center; color:white; font-size:64px; font-family:sans-serif; word-wrap:break-word;\">",
        "                %TITLE%",
        "            </div>",
        "</foreignObject>",
        "</svg>",
    ]
    .join("\n")
    .replace("%TITLE%", title)
}

#[test]
fn cover_of_a_plain_title() {
    assert_eq!(make_cover("Song"), expected("Song"));
}

#[test]
fn cover_of_no_title() {
    assert_eq!(make_cover(""), expected(""));
}

#[test]
fn title_is_escaped() {
    assert_eq!(
        make_cover("Tom & Jerry <live> \"1\" 'x' é"),
        expected("Tom &amp; Jerry &lt;live&gt; \"1\" 'x' é")
    );
    assert_eq!(make_cover("&lt;"), expected("&amp;lt;"));
}

#[test]
fn data_uri_of_short_texts() {
    assert_eq!(make_data_uri(""), "data:image/svg+xml;base64,");
    assert_eq!(make_data_uri("f"), "data:image/svg+xml;base64,Zg==");
    assert_eq!(make_data_uri("fo"), "data:image/svg+xml;base64,Zm8=");
    assert_eq!(make_data_uri("foo"), "data:image/svg+xml;base64,Zm9v");
    assert_eq!(make_data_uri("foob"), "data:image/svg+xml;base64,Zm9vYg==");
    assert_eq!(make_data_uri("é>?"), "data:image/svg+xml;base64,w6k+Pw==");
}

#[test]
fn cover_uri_gives_back_the_document() {
    let uri = generate_cover_svg_base64("Café & Bar");
    let body = uri.strip_prefix("data:image/svg+xml;base64,").unwrap();
    let bytes = base64::engine::general_purpose::STANDARD.decode(body).unwrap();
    assert_eq!(String::from_utf8(bytes).unwrap(), expected("Café &amp; Bar"));
}

#[test]
fn different_titles_have_different_covers() {
    assert_ne!(generate_cover_svg_base64("&"), generate_cover_svg_base64("&amp;"));
}

#[test]
fn ordinary_covers_fit() {
    assert!(cover_fits("Song"));
}

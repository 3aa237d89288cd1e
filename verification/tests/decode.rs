use std::collections::HashSet;

use epub_rs::OptionalElementName::{creator, date, rights, source, subject};
use epub_rs::{
    ApplicationType, Attribute, Dir, EPUBError, Identifier, ImageType, Item, ItemRef, Language,
    Linear, Manifest, ManifestItemProperty, MediaType, MissingElement, OptionalElement,
    PackageDocument, QName, Spine, TextType, Title, Token,
};

const DC: &str = "http://purl.org/dc/elements/1.1/";
const OPF: &str = "http://www.idpf.org/2007/opf";

fn qn(prefix: Option<&str>, local: &str, ns: Option<&str>) -> QName {
    QName {
        local_name: local.to_string(),
        namespace: ns.map(|s| s.to_string()),
        prefix: prefix.map(|s| s.to_string()),
    }
}

fn attr(local: &str, value: &str) -> Attribute {
    Attribute { name: qn(None, local, None), value: value.to_string() }
}

fn start(prefix: Option<&str>, local: &str, ns: Option<&str>, attrs: Vec<Attribute>) -> Token {
    Token::StartElement { name: qn(prefix, local, ns), attributes: attrs }
}

fn end(prefix: Option<&str>, local: &str, ns: Option<&str>) -> Token {
    Token::EndElement { name: qn(prefix, local, ns) }
}

fn text(s: &str) -> Token {
    Token::Characters(s.to_string())
}

fn dc_elem(local: &str, attrs: Vec<Attribute>, content: &str) -> Vec<Token> {
    vec![
        start(Some("dc"), local, Some(DC), attrs),
        text(content),
        end(Some("dc"), local, Some(DC)),
    ]
}

fn item(attrs: Vec<Attribute>) -> Vec<Token> {
    vec![start(None, "item", Some(OPF), attrs), end(None, "item", Some(OPF))]
}

fn itemref(attrs: Vec<Attribute>) -> Vec<Token> {
    vec![start(None, "itemref", Some(OPF), attrs), end(None, "itemref", Some(OPF))]
}

fn package_doc(
    package_attrs: Vec<Attribute>,
    metadata: Vec<Token>,
    manifest: Vec<Token>,
    spine: Vec<Token>,
) -> Vec<Token> {
    let mut tokens = vec![
        Token::StartDocument,
        start(None, "package", Some(OPF), package_attrs),
        start(None, "metadata", Some(OPF), vec![]),
    ];
    tokens.extend(metadata);
    tokens.push(end(None, "metadata", Some(OPF)));
    tokens.push(start(None, "manifest", Some(OPF), vec![]));
    tokens.extend(manifest);
    tokens.push(end(None, "manifest", Some(OPF)));
    tokens.push(start(None, "spine", Some(OPF), vec![]));
    tokens.extend(spine);
    tokens.push(end(None, "spine", Some(OPF)));
    tokens.push(end(None, "package", Some(OPF)));
    tokens.push(Token::EndDocument);
    tokens
}

/// The package document of a small publication, as its token stream.
fn book_tokens() -> Vec<Token> {
    let mut metadata = Vec::new();
    metadata.extend(dc_elem(
        "identifier",
        vec![attr("id", "id")],
        "http://www.gutenberg.org/ebooks/25545",
    ));
    metadata.extend(dc_elem("title", vec![attr("id", "t1")], "Children's Literature"));
    metadata.extend(dc_elem("language", vec![], "en"));
    metadata.extend(dc_elem("creator", vec![attr("id", "curry")], "Charles Madison Curry"));
    metadata.extend(dc_elem(
        "creator",
        vec![attr("id", "clippinger")],
        "Erle Elsworth Clippinger",
    ));
    metadata.extend(dc_elem("date", vec![], "2008-05-20"));
    metadata.extend(dc_elem("subject", vec![], "Children -- Books and reading"));
    metadata.extend(dc_elem("subject", vec![], "Children's literature -- Study and teaching"));
    metadata.extend(dc_elem(
        "source",
        vec![],
        "http://www.gutenberg.org/files/25545/25545-h/25545-h.htm",
    ));
    metadata.extend(dc_elem("rights", vec![], "Public domain in the USA."));

    let mut manifest = Vec::new();
    manifest.extend(item(vec![
        attr("id", "cover"),
        attr("href", "cover.xhtml"),
        attr("media-type", "application/xhtml+xml"),
    ]));
    manifest.extend(item(vec![
        attr("id", "nav"),
        attr("href", "nav.xhtml"),
        attr("media-type", "application/xhtml+xml"),
        attr("properties", "nav scripted"),
    ]));
    manifest.extend(item(vec![
        attr("id", "cover-img"),
        attr("href", "images/cover.png"),
        attr("media-type", "image/png"),
        attr("properties", "cover-image"),
    ]));
    manifest.extend(item(vec![
        attr("id", "css01"),
        attr("href", "css/epub.css"),
        attr("media-type", "text/css"),
    ]));
    manifest.extend(item(vec![
        attr("id", "css02"),
        attr("href", "css/nav.css"),
        attr("media-type", "text/css"),
    ]));
    manifest.extend(item(vec![
        attr("id", "s04"),
        attr("href", "s04.xhtml"),
        attr("media-type", "application/xhtml+xml"),
    ]));

    let mut spine = Vec::new();
    spine.extend(itemref(vec![attr("idref", "cover")]));
    spine.extend(itemref(vec![attr("idref", "nav")]));
    spine.extend(itemref(vec![attr("idref", "s04")]));

    package_doc(
        vec![attr("unique-identifier", "id"), attr("version", "3.0")],
        metadata,
        manifest,
        spine,
    )
}

fn book() -> PackageDocument {
    PackageDocument::new(&book_tokens()).expect("the book's package document decodes")
}

fn plain_item(
    id: &str,
    href: &str,
    media_type: MediaType,
    properties: Vec<ManifestItemProperty>,
) -> Item {
    Item {
        fallback: None,
        href: href.to_string(),
        id: id.to_string(),
        media_overlay: None,
        media_type,
        properties,
    }
}

#[test]
fn package_attributes() {
    let pd = book();
    assert_eq!("id", &pd.unique_identifier);
    assert_eq!("3.0", &pd.version);
}

#[test]
fn meta_data() {
    let pd = book();
    let unique_id = Identifier {
        id: Some("id".to_string()),
        identifier: "http://www.gutenberg.org/ebooks/25545".to_string(),
    };
    assert_eq!(&unique_id, pd.meta_data.unique_identifier());
}

#[test]
fn unique_identifier() {
    let pd = book();
    let unique_id = Identifier {
        id: Some("id".to_string()),
        identifier: "http://www.gutenberg.org/ebooks/25545".to_string(),
    };
    assert_eq!(&unique_id, pd.meta_data.unique_identifier());
}

#[test]
fn title() {
    let pd = book();
    let title = Title {
        title: "Children's Literature".into(),
        dir: None,
        id: Some("t1".into()),
        xml_lang: None,
    };
    assert_eq!(Some(&title), pd.meta_data.title());
}

#[test]
fn language() {
    let pd = book();
    let language = Language { language: "en".into(), id: None };
    assert_eq!(Some(&language), pd.meta_data.language());
}

#[test]
fn optionals() {
    let pd = book();
    let optionals = pd.meta_data.optionals.iter().collect::<HashSet<&OptionalElement>>();
    let correct = vec![
        OptionalElement {
            name: creator,
            value: "Charles Madison Curry".into(),
            dir: None,
            id: Some("curry".into()),
            xml_lang: None,
        },
        OptionalElement {
            name: creator,
            value: "Erle Elsworth Clippinger".into(),
            dir: None,
            id: Some("clippinger".into()),
            xml_lang: None,
        },
        OptionalElement {
            name: date,
            value: "2008-05-20".into(),
            dir: None,
            id: None,
            xml_lang: None,
        },
        OptionalElement {
            name: subject,
            value: "Children -- Books and reading".into(),
            dir: None,
            id: None,
            xml_lang: None,
        },
        OptionalElement {
            name: subject,
            value: "Children's literature -- Study and teaching".into(),
            dir: None,
            id: None,
            xml_lang: None,
        },
        OptionalElement {
            name: source,
            value: "http://www.gutenberg.org/files/25545/25545-h/25545-h.htm".into(),
            dir: None,
            id: None,
            xml_lang: None,
        },
        OptionalElement {
            name: rights,
            value: "Public domain in the USA.".into(),
            dir: None,
            id: None,
            xml_lang: None,
        },
    ];
    let correct_set = correct.iter().collect::<HashSet<&OptionalElement>>();
    assert_eq!(correct_set, optionals);
}

#[test]
fn manifest() {
    let pd = book();
    let correct = Manifest {
        id: None,
        items: vec![
            plain_item("cover", "cover.xhtml", MediaType::Application(ApplicationType::XHTML), vec![]),
            plain_item(
                "nav",
                "nav.xhtml",
                MediaType::Application(ApplicationType::XHTML),
                vec![ManifestItemProperty::nav, ManifestItemProperty::scripted],
            ),
            plain_item("cover-img", "images/cover.png", MediaType::Image(ImageType::PNG), vec![ManifestItemProperty::cover_image]),
            plain_item("css01", "css/epub.css", MediaType::Text(TextType::CSS), vec![]),
            plain_item("css02", "css/nav.css", MediaType::Text(TextType::CSS), vec![]),
            plain_item("s04", "s04.xhtml", MediaType::Application(ApplicationType::XHTML), vec![]),
        ],
        cover_image: Some(plain_item(
            "cover-img",
            "images/cover.png",
            MediaType::Image(ImageType::PNG),
            vec![ManifestItemProperty::cover_image],
        )),
        nav: plain_item(
            "nav",
            "nav.xhtml",
            MediaType::Application(ApplicationType::XHTML),
            vec![ManifestItemProperty::nav, ManifestItemProperty::scripted],
        ),
    };
    assert_eq!(&correct, &pd.manifest);
}

#[test]
fn spine() {
    let pd = book();
    let correct = Spine {
        id: None,
        page_progression_direction: None,
        items: vec![
            ItemRef { id: None, idref: "cover".into(), linear: None, properties: None },
            ItemRef { id: None, idref: "nav".into(), linear: None, properties: None },
            ItemRef { id: None, idref: "s04".into(), linear: None, properties: None },
        ],
    };
    assert_eq!(&correct, &pd.spine);
}

#[test]
fn resources() {
    let pd = book();
    let resources = pd.resources().into_iter().collect::<HashSet<String>>();
    let correct: HashSet<String> = vec![
        "images/cover.png",
        "css/epub.css",
        "css/nav.css",
        "cover.xhtml",
        "s04.xhtml",
        "nav.xhtml",
    ]
    .into_iter()
    .map(|s| s.to_string())
    .collect();
    assert_eq!(correct.difference(&resources).next(), None);
    assert_eq!(correct, resources);
}

#[test]
fn spine_resources() {
    let pd = book();
    let correct: Vec<String> =
        vec!["cover.xhtml".into(), "nav.xhtml".into(), "s04.xhtml".into()];
    assert_eq!(&correct, &pd.spine_resources());
}

#[test]
fn package_dir_attributes() {
    let mut metadata = Vec::new();
    metadata.extend(dc_elem("identifier", vec![attr("id", "u")], "X"));
    metadata.extend(dc_elem("title", vec![], "T"));
    metadata.extend(dc_elem("language", vec![], "en"));
    let manifest = item(vec![
        attr("id", "nav"),
        attr("href", "nav.xhtml"),
        attr("media-type", "application/xhtml+xml"),
        attr("properties", "nav"),
    ]);
    let spine = itemref(vec![attr("idref", "nav")]);
    let tokens = package_doc(
        vec![
            attr("unique-identifier", "u"),
            attr("version", "3.0"),
            attr("dir", "rtl"),
            attr("id", "pkg"),
            attr("prefix", "foaf: http://xmlns.com/foaf/spec/"),
        ],
        metadata.clone(),
        manifest.clone(),
        spine.clone(),
    );
    let pd = PackageDocument::new(&tokens).unwrap();
    assert_eq!(Some(Dir::rtl), pd.dir());
    assert_eq!(Some("pkg".to_string()), pd.id());
    assert_eq!(Some("foaf: http://xmlns.com/foaf/spec/".to_string()), pd.prefix());
    assert_eq!(None, pd.xml_lang());

    // An unrecognized reading direction is treated as absent, not an error.
    let tokens2 = package_doc(
        vec![attr("unique-identifier", "u"), attr("version", "3.0"), attr("dir", "sideways")],
        metadata,
        manifest,
        spine,
    );
    let pd2 = PackageDocument::new(&tokens2).unwrap();
    assert_eq!(None, pd2.dir());
}

#[test]
fn linear_flag_defaults() {
    let mut metadata = Vec::new();
    metadata.extend(dc_elem("identifier", vec![attr("id", "u")], "X"));
    metadata.extend(dc_elem("title", vec![], "T"));
    metadata.extend(dc_elem("language", vec![], "en"));
    let manifest = item(vec![
        attr("id", "nav"),
        attr("href", "nav.xhtml"),
        attr("media-type", "application/xhtml+xml"),
        attr("properties", "nav"),
    ]);
    let mut spine = itemref(vec![attr("idref", "nav")]);
    spine.extend(itemref(vec![attr("idref", "nav"), attr("linear", "no")]));
    let tokens = package_doc(
        vec![attr("unique-identifier", "u"), attr("version", "3.0")],
        metadata,
        manifest,
        spine,
    );
    let pd = PackageDocument::new(&tokens).unwrap();
    assert_eq!(None, pd.spine.items[0].linear);
    assert_eq!(Linear::yes, pd.spine.items[0].effective_linear());
    assert_eq!(Some(Linear::no), pd.spine.items[1].linear);
    assert_eq!(Linear::no, pd.spine.items[1].effective_linear());
}

#[test]
fn decoding_twice_is_deterministic() {
    let bytes: &[u8] = br#"<?xml version="1.0" encoding="UTF-8"?>
<package xmlns="http://www.idpf.org/2007/opf" unique-identifier="u" version="3.0">
  <metadata xmlns:dc="http://purl.org/dc/elements/1.1/">
    <dc:identifier id="u">X</dc:identifier>
    <dc:title>T</dc:title>
    <dc:language>en</dc:language>
  </metadata>
  <manifest>
    <item id="nav" href="nav.xhtml" media-type="application/xhtml+xml" properties="nav"/>
  </manifest>
  <spine>
    <itemref idref="nav"/>
  </spine>
</package>"#;
    let first = PackageDocument::from_xml_bytes(bytes);
    let second = PackageDocument::from_xml_bytes(bytes);
    assert_eq!(first, second);
    let pd = first.unwrap();
    assert_eq!("X", &pd.meta_data.unique_identifier().identifier);
    assert_eq!("T", &pd.meta_data.title().unwrap().title);
    assert_eq!("nav", &pd.manifest.nav.id);
    assert_eq!(vec!["nav".to_string()], pd
        .spine
        .items
        .iter()
        .map(|i| i.idref.clone())
        .collect::<Vec<String>>());
    assert_eq!(EPUBError::StructuralError(MissingElement::Package), {
        let empty = PackageDocument::from_xml_bytes(b"not markup at all");
        empty.unwrap_err()
    });
}

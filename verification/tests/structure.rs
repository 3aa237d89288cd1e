use epub_rs::{
    ApplicationType, Attribute, AudioType, EPUBError, FallbackFault, ImageType, Linear,
    ManifestItemProperty, MediaType, MetaDataProperty, MissingAttribute, MissingElement,
    OptionalElementName, PackageDocument, PageProgressionDirection, QName, TextType, Token, Xml,
};

const DC: &str = "http://purl.org/dc/elements/1.1/";
const OPF: &str = "http://www.idpf.org/2007/opf";

fn qname(prefix: Option<&str>, local: &str, ns: Option<&str>) -> QName {
    QName {
        local_name: local.to_string(),
        namespace: ns.map(|s| s.to_string()),
        prefix: prefix.map(|s| s.to_string()),
    }
}

fn a(local: &str, value: &str) -> Attribute {
    Attribute { name: qname(None, local, None), value: value.to_string() }
}

fn open_tag(prefix: Option<&str>, local: &str, ns: Option<&str>, attrs: Vec<Attribute>) -> Token {
    Token::StartElement { name: qname(prefix, local, ns), attributes: attrs }
}

fn close_tag(prefix: Option<&str>, local: &str, ns: Option<&str>) -> Token {
    Token::EndElement { name: qname(prefix, local, ns) }
}

fn chars(s: &str) -> Token {
    Token::Characters(s.to_string())
}

fn dc_entry(local: &str, attrs: Vec<Attribute>, content: &str) -> Vec<Token> {
    vec![
        open_tag(Some("dc"), local, Some(DC), attrs),
        chars(content),
        close_tag(Some("dc"), local, Some(DC)),
    ]
}

fn manifest_item(attrs: Vec<Attribute>) -> Vec<Token> {
    vec![open_tag(None, "item", Some(OPF), attrs), close_tag(None, "item", Some(OPF))]
}

fn spine_ref(attrs: Vec<Attribute>) -> Vec<Token> {
    vec![open_tag(None, "itemref", Some(OPF), attrs), close_tag(None, "itemref", Some(OPF))]
}

fn whole_doc(
    package_attrs: Vec<Attribute>,
    metadata: Vec<Token>,
    manifest: Vec<Token>,
    spine: Vec<Token>,
) -> Vec<Token> {
    let mut tokens = vec![
        Token::StartDocument,
        open_tag(None, "package", Some(OPF), package_attrs),
        open_tag(None, "metadata", Some(OPF), vec![]),
    ];
    tokens.extend(metadata);
    tokens.push(close_tag(None, "metadata", Some(OPF)));
    tokens.push(open_tag(None, "manifest", Some(OPF), vec![]));
    tokens.extend(manifest);
    tokens.push(close_tag(None, "manifest", Some(OPF)));
    tokens.push(open_tag(None, "spine", Some(OPF), vec![]));
    tokens.extend(spine);
    tokens.push(close_tag(None, "spine", Some(OPF)));
    tokens.push(close_tag(None, "package", Some(OPF)));
    tokens.push(Token::EndDocument);
    tokens
}

fn minimal_metadata() -> Vec<Token> {
    let mut metadata = Vec::new();
    metadata.extend(dc_entry("identifier", vec![a("id", "id")], "X"));
    metadata.extend(dc_entry("title", vec![], "T"));
    metadata.extend(dc_entry("language", vec![], "en"));
    metadata
}

fn nav_item() -> Vec<Token> {
    manifest_item(vec![
        a("id", "nav"),
        a("href", "nav.xhtml"),
        a("media-type", "application/xhtml+xml"),
        a("properties", "nav"),
    ])
}

fn minimal_doc() -> Vec<Token> {
    whole_doc(
        vec![a("unique-identifier", "id"), a("version", "3.0")],
        minimal_metadata(),
        nav_item(),
        spine_ref(vec![a("idref", "nav")]),
    )
}

fn decode(tokens: &Vec<Token>) -> Result<PackageDocument, EPUBError> {
    PackageDocument::new(tokens)
}

#[test]
fn concrete_scenario_decodes() {
    let pd = decode(&minimal_doc()).expect("the minimal package document decodes");
    assert_eq!("X", &pd.meta_data.unique_identifier().identifier);
    assert_eq!("T", &pd.meta_data.title().unwrap().title);
    assert_eq!("en", &pd.meta_data.language().unwrap().language);
    assert_eq!("nav", &pd.manifest.nav.id);
    let order: Vec<String> = pd.spine.items.iter().map(|i| i.idref.clone()).collect();
    assert_eq!(vec!["nav".to_string()], order);
}

#[test]
fn tree_builder_keeps_order_and_text() {
    // <a>one<b>two</b><!-- note -->three</a>, all under a document node.
    let tokens = vec![
        Token::StartDocument,
        open_tag(None, "a", None, vec![]),
        chars("one"),
        open_tag(None, "b", None, vec![]),
        chars("two"),
        close_tag(None, "b", None),
        Token::Comment(" note ".to_string()),
        chars("three"),
        close_tag(None, "a", None),
        Token::EndDocument,
    ];
    let xml = Xml::new(&tokens);
    assert_eq!(1, xml.vec.len());
    let doc = &xml.vec[0];
    assert_eq!(1, doc.children.len());
    let elem_a = doc.children[0].get_by("a").expect("element a is found");
    assert_eq!(4, elem_a.children.len());
    assert_eq!("onetwothree", &elem_a.inner_text());
    let elem_b = elem_a.get_by("b").expect("element b is found");
    assert_eq!("two", &elem_b.inner_text());
}

#[test]
fn missing_package_is_structural() {
    let tokens = vec![Token::StartDocument, Token::EndDocument];
    assert_eq!(
        Err(EPUBError::StructuralError(MissingElement::Package)),
        decode(&tokens)
    );
}

#[test]
fn missing_required_attributes() {
    let no_uid = whole_doc(
        vec![a("version", "3.0")],
        minimal_metadata(),
        nav_item(),
        spine_ref(vec![a("idref", "nav")]),
    );
    assert_eq!(
        Err(EPUBError::AttributeError(MissingAttribute::UniqueIdentifier)),
        decode(&no_uid)
    );

    let no_version = whole_doc(
        vec![a("unique-identifier", "id")],
        minimal_metadata(),
        nav_item(),
        spine_ref(vec![a("idref", "nav")]),
    );
    assert_eq!(Err(EPUBError::AttributeError(MissingAttribute::Version)), decode(&no_version));
}

#[test]
fn missing_sections_are_structural() {
    // A package with no metadata, manifest or spine at all.
    let tokens = vec![
        Token::StartDocument,
        open_tag(
            None,
            "package",
            Some(OPF),
            vec![a("unique-identifier", "id"), a("version", "3.0")],
        ),
        close_tag(None, "package", Some(OPF)),
        Token::EndDocument,
    ];
    assert_eq!(Err(EPUBError::StructuralError(MissingElement::Metadata)), decode(&tokens));
}

#[test]
fn missing_title_is_structural() {
    let mut metadata = Vec::new();
    metadata.extend(dc_entry("identifier", vec![a("id", "id")], "X"));
    metadata.extend(dc_entry("language", vec![], "en"));
    let tokens = whole_doc(
        vec![a("unique-identifier", "id"), a("version", "3.0")],
        metadata,
        nav_item(),
        spine_ref(vec![a("idref", "nav")]),
    );
    assert_eq!(Err(EPUBError::StructuralError(MissingElement::Title)), decode(&tokens));
}

#[test]
fn missing_language_is_structural() {
    let mut metadata = Vec::new();
    metadata.extend(dc_entry("identifier", vec![a("id", "id")], "X"));
    metadata.extend(dc_entry("title", vec![], "T"));
    let tokens = whole_doc(
        vec![a("unique-identifier", "id"), a("version", "3.0")],
        metadata,
        nav_item(),
        spine_ref(vec![a("idref", "nav")]),
    );
    assert_eq!(Err(EPUBError::StructuralError(MissingElement::Language)), decode(&tokens));
}

#[test]
fn unresolved_unique_identifier_is_reference_error() {
    let tokens = whole_doc(
        vec![a("unique-identifier", "no-such-id"), a("version", "3.0")],
        minimal_metadata(),
        nav_item(),
        spine_ref(vec![a("idref", "nav")]),
    );
    assert_eq!(Err(EPUBError::ReferenceError), decode(&tokens));
}

#[test]
fn first_matching_identifier_wins() {
    let mut metadata = Vec::new();
    metadata.extend(dc_entry("identifier", vec![a("id", "id")], "first"));
    metadata.extend(dc_entry("identifier", vec![a("id", "id")], "second"));
    metadata.extend(dc_entry("title", vec![], "T"));
    metadata.extend(dc_entry("language", vec![], "en"));
    let tokens = whole_doc(
        vec![a("unique-identifier", "id"), a("version", "3.0")],
        metadata,
        nav_item(),
        spine_ref(vec![a("idref", "nav")]),
    );
    let pd = decode(&tokens).unwrap();
    assert_eq!("first", &pd.meta_data.unique_identifier().identifier);
}

#[test]
fn item_attribute_failures() {
    let no_id = manifest_item(vec![a("href", "x.xhtml")]);
    let tokens = whole_doc(
        vec![a("unique-identifier", "id"), a("version", "3.0")],
        minimal_metadata(),
        no_id,
        spine_ref(vec![a("idref", "nav")]),
    );
    assert_eq!(Err(EPUBError::AttributeError(MissingAttribute::ItemId)), decode(&tokens));

    let no_href = manifest_item(vec![a("id", "x")]);
    let tokens2 = whole_doc(
        vec![a("unique-identifier", "id"), a("version", "3.0")],
        minimal_metadata(),
        no_href,
        spine_ref(vec![a("idref", "nav")]),
    );
    assert_eq!(Err(EPUBError::AttributeError(MissingAttribute::ItemHref)), decode(&tokens2));
}

#[test]
fn itemref_without_idref_fails() {
    let tokens = whole_doc(
        vec![a("unique-identifier", "id"), a("version", "3.0")],
        minimal_metadata(),
        nav_item(),
        spine_ref(vec![a("id", "r1")]),
    );
    assert_eq!(
        Err(EPUBError::AttributeError(MissingAttribute::ItemRefIdref)),
        decode(&tokens)
    );
}

#[test]
fn duplicate_item_ids_fail() {
    let mut manifest = nav_item();
    manifest.extend(manifest_item(vec![
        a("id", "nav"),
        a("href", "other.xhtml"),
        a("media-type", "application/xhtml+xml"),
    ]));
    let tokens = whole_doc(
        vec![a("unique-identifier", "id"), a("version", "3.0")],
        minimal_metadata(),
        manifest,
        spine_ref(vec![a("idref", "nav")]),
    );
    assert_eq!(Err(EPUBError::DuplicateIdError), decode(&tokens));
}

#[test]
fn self_fallback_is_circular() {
    let mut manifest = nav_item();
    manifest.extend(manifest_item(vec![
        a("id", "weird"),
        a("href", "weird.bin"),
        a("media-type", "application/x-unknown"),
        a("fallback", "weird"),
    ]));
    let tokens = whole_doc(
        vec![a("unique-identifier", "id"), a("version", "3.0")],
        minimal_metadata(),
        manifest,
        spine_ref(vec![a("idref", "nav")]),
    );
    assert_eq!(
        Err(EPUBError::FallbackChainError(FallbackFault::Circular)),
        decode(&tokens)
    );
}

#[test]
fn mutual_fallback_is_circular() {
    let mut manifest = nav_item();
    manifest.extend(manifest_item(vec![
        a("id", "one"),
        a("href", "one.bin"),
        a("media-type", "application/x-unknown"),
        a("fallback", "two"),
    ]));
    manifest.extend(manifest_item(vec![
        a("id", "two"),
        a("href", "two.bin"),
        a("media-type", "application/x-unknown"),
        a("fallback", "one"),
    ]));
    let tokens = whole_doc(
        vec![a("unique-identifier", "id"), a("version", "3.0")],
        minimal_metadata(),
        manifest,
        spine_ref(vec![a("idref", "nav")]),
    );
    assert_eq!(
        Err(EPUBError::FallbackChainError(FallbackFault::Circular)),
        decode(&tokens)
    );
}

#[test]
fn acyclic_fallback_chain_succeeds() {
    let mut manifest = nav_item();
    manifest.extend(manifest_item(vec![
        a("id", "one"),
        a("href", "one.bin"),
        a("media-type", "application/x-unknown"),
        a("fallback", "two"),
    ]));
    manifest.extend(manifest_item(vec![
        a("id", "two"),
        a("href", "two.bin"),
        a("media-type", "application/x-other"),
        a("fallback", "three"),
    ]));
    manifest.extend(manifest_item(vec![
        a("id", "three"),
        a("href", "three.xhtml"),
        a("media-type", "application/xhtml+xml"),
    ]));
    let tokens = whole_doc(
        vec![a("unique-identifier", "id"), a("version", "3.0")],
        minimal_metadata(),
        manifest,
        spine_ref(vec![a("idref", "nav")]),
    );
    let pd = decode(&tokens).unwrap();
    assert_eq!(4, pd.manifest.items.len());
}

#[test]
fn missing_fallback_on_non_core_item_fails() {
    let mut manifest = nav_item();
    manifest.extend(manifest_item(vec![
        a("id", "weird"),
        a("href", "weird.bin"),
        a("media-type", "application/x-unknown"),
    ]));
    let tokens = whole_doc(
        vec![a("unique-identifier", "id"), a("version", "3.0")],
        minimal_metadata(),
        manifest,
        spine_ref(vec![a("idref", "nav")]),
    );
    assert_eq!(
        Err(EPUBError::FallbackChainError(FallbackFault::MissingFallback)),
        decode(&tokens)
    );
}

#[test]
fn fallback_to_missing_target_fails() {
    let mut manifest = nav_item();
    manifest.extend(manifest_item(vec![
        a("id", "weird"),
        a("href", "weird.bin"),
        a("media-type", "application/x-unknown"),
        a("fallback", "nowhere"),
    ]));
    let tokens = whole_doc(
        vec![a("unique-identifier", "id"), a("version", "3.0")],
        minimal_metadata(),
        manifest,
        spine_ref(vec![a("idref", "nav")]),
    );
    assert_eq!(
        Err(EPUBError::FallbackChainError(FallbackFault::MissingTarget)),
        decode(&tokens)
    );
}

#[test]
fn no_nav_item_is_structural() {
    let manifest = manifest_item(vec![
        a("id", "page"),
        a("href", "page.xhtml"),
        a("media-type", "application/xhtml+xml"),
    ]);
    let tokens = whole_doc(
        vec![a("unique-identifier", "id"), a("version", "3.0")],
        minimal_metadata(),
        manifest,
        spine_ref(vec![a("idref", "page")]),
    );
    assert_eq!(Err(EPUBError::StructuralError(MissingElement::NavItem)), decode(&tokens));
}

#[test]
fn nav_reference_is_the_single_nav_item() {
    let pd = decode(&minimal_doc()).unwrap();
    assert_eq!("nav", &pd.manifest.nav.id);
    assert_eq!(pd.manifest.items[0], pd.manifest.nav);
    assert_eq!(None, pd.manifest.cover_image);
}

#[test]
fn spine_order_is_preserved() {
    let mut manifest = nav_item();
    for id in ["pg1", "pg2", "pg3"] {
        manifest.extend(manifest_item(vec![
            a("id", id),
            a("href", &format!("{}.xhtml", id)),
            a("media-type", "application/xhtml+xml"),
        ]));
    }
    let mut spine = Vec::new();
    for idref in ["pg2", "nav", "pg1", "pg3", "pg1"] {
        spine.extend(spine_ref(vec![a("idref", idref)]));
    }
    let tokens = whole_doc(
        vec![a("unique-identifier", "id"), a("version", "3.0")],
        minimal_metadata(),
        manifest,
        spine,
    );
    let pd = decode(&tokens).unwrap();
    let order: Vec<String> = pd.spine.items.iter().map(|i| i.idref.clone()).collect();
    let expected: Vec<String> =
        vec!["pg2".into(), "nav".into(), "pg1".into(), "pg3".into(), "pg1".into()];
    assert_eq!(expected, order);
}

#[test]
fn unrecognized_page_progression_is_absent() {
    let mut tokens = vec![
        Token::StartDocument,
        open_tag(
            None,
            "package",
            Some(OPF),
            vec![a("unique-identifier", "id"), a("version", "3.0")],
        ),
        open_tag(None, "metadata", Some(OPF), vec![]),
    ];
    tokens.extend(minimal_metadata());
    tokens.push(close_tag(None, "metadata", Some(OPF)));
    tokens.push(open_tag(None, "manifest", Some(OPF), vec![]));
    tokens.extend(nav_item());
    tokens.push(close_tag(None, "manifest", Some(OPF)));
    tokens.push(open_tag(None, "spine", Some(OPF), vec![a("page-progression-direction", "up")]));
    tokens.extend(spine_ref(vec![a("idref", "nav")]));
    tokens.push(close_tag(None, "spine", Some(OPF)));
    tokens.push(close_tag(None, "package", Some(OPF)));
    tokens.push(Token::EndDocument);
    let pd = decode(&tokens).unwrap();
    assert_eq!(None, pd.spine.page_progression_direction);
    assert_eq!(Ok(PageProgressionDirection::rtl), PageProgressionDirection::from_str("rtl"));
    assert!(PageProgressionDirection::from_str("up").is_err());
}

#[test]
fn unrecognized_property_tokens_are_dropped() {
    let manifest = manifest_item(vec![
        a("id", "nav"),
        a("href", "nav.xhtml"),
        a("media-type", "application/xhtml+xml"),
        a("properties", "nav  bogus\tscripted\nmystery"),
    ]);
    let tokens = whole_doc(
        vec![a("unique-identifier", "id"), a("version", "3.0")],
        minimal_metadata(),
        manifest,
        spine_ref(vec![a("idref", "nav")]),
    );
    let pd = decode(&tokens).unwrap();
    assert_eq!(
        vec![ManifestItemProperty::nav, ManifestItemProperty::scripted],
        pd.manifest.items[0].properties
    );
}

#[test]
fn unrecognized_media_type_is_classified_not_rejected() {
    let mt = MediaType::from_mime("application/x-unknown");
    assert_eq!(MediaType::Unrecognized("application/x-unknown".to_string()), mt);
    assert!(!mt.is_core_media_type());
    assert_eq!("application/x-unknown", &mt.to_string());
    assert!(MediaType::from_mime("image/png").is_core_media_type());
}

#[test]
fn media_type_tables() {
    assert_eq!(Ok(MediaType::Image(ImageType::PNG)), MediaType::from_str("png"));
    assert_eq!(Ok(MediaType::Image(ImageType::JPEG)), MediaType::from_str("jpg"));
    assert_eq!(
        Ok(MediaType::Application(ApplicationType::XHTML)),
        MediaType::from_str("xhtml")
    );
    assert_eq!(Ok(MediaType::Audio(AudioType::MPEG)), MediaType::from_str("mp3"));
    assert_eq!(Ok(MediaType::Text(TextType::JS)), MediaType::from_str("js"));
    assert_eq!(Err(EPUBError::MediaTypeError), MediaType::from_str("docx"));
    assert_eq!("image/svg+xml", &MediaType::Image(ImageType::SVG).to_string());
    assert_eq!("svg+xml", &ImageType::SVG.to_string());
    assert_eq!("vnd.ms-opentype", &ApplicationType::OpenType.to_string());
    assert_eq!("javascript", &TextType::JS.to_string());
    assert_eq!("mp4", &AudioType::MP4.to_string());
    assert_eq!(MediaType::Application(ApplicationType::XHTML), MediaType::default());
    assert_eq!(MediaType::Text(TextType::CSS), MediaType::from_mime("text/css"));
}

#[test]
fn vocabulary_tables() {
    assert_eq!(Ok(MetaDataProperty::title_type), MetaDataProperty::from_str("title-type"));
    assert!(MetaDataProperty::from_str("unknown").is_err());
    assert_eq!("belongs-to-collection", &MetaDataProperty::belongs_to_collection.to_string());
    assert_eq!(Ok(OptionalElementName::type_), OptionalElementName::from_str("type"));
    assert_eq!("type", &OptionalElementName::type_.to_string());
    assert!(OptionalElementName::from_str("identifier").is_err());
    assert_eq!(Ok(Linear::no), Linear::from_str("no"));
    assert!(Linear::from_str("maybe").is_err());
    assert_eq!(Linear::yes, Linear::default());
}

#[test]
fn first_attribute_occurrence_wins() {
    let mut metadata = Vec::new();
    metadata.extend(dc_entry("identifier", vec![a("id", "id"), a("id", "shadow")], "X"));
    metadata.extend(dc_entry("title", vec![], "T"));
    metadata.extend(dc_entry("language", vec![], "en"));
    let tokens = whole_doc(
        vec![a("unique-identifier", "id"), a("version", "3.0")],
        metadata,
        nav_item(),
        spine_ref(vec![a("idref", "nav")]),
    );
    let pd = decode(&tokens).unwrap();
    assert_eq!(Some("id".to_string()), pd.meta_data.unique_identifier().id);
}

use arachne::crawler::dom::HtmlElement;
use arachne::crawler::fatal_model::{FatalModelCrawler, ListingCard, ProfilePageParts};
use arachne::models::ProfileStub;

#[test]
fn test_listing_url() {
    assert_eq!(
        FatalModelCrawler::listing_url("sao-paulo", 1),
        "https://fatalmodel.com/acompanhantes/sao-paulo"
    );
    assert_eq!(
        FatalModelCrawler::listing_url("sao-paulo", 3),
        "https://fatalmodel.com/acompanhantes/sao-paulo?page=3"
    );
}

#[test]
fn test_parse_listing_empty() {
    let html = "<html><body><div>No results</div></body></html>";
    let stubs = FatalModelCrawler::parse_listing_page(html, "sao-paulo");
    assert!(stubs.is_empty());
}

#[test]
fn test_parse_listing_with_cards() {
    let html = r#"
    <html><body>
        <a href="/acompanhantes/sao-paulo/maria-123456">
            <img src="https://cdn.fatalmodel.com/thumb1.jpg" />
            Maria Silva
        </a>
        <a href="/acompanhantes/sao-paulo/ana-789012">
            <img src="https://cdn.fatalmodel.com/thumb2.jpg" />
            Ana Santos
        </a>
    </body></html>
    "#;

    let stubs = FatalModelCrawler::parse_listing_page(html, "sao-paulo");
    assert_eq!(stubs.len(), 2);
    assert!(stubs[0].url.contains("ana-789012") || stubs[0].url.contains("maria-123456"));
}

#[test]
fn listing_url_page_zero_is_first_page() {
    assert_eq!(
        FatalModelCrawler::listing_url("rio-de-janeiro", 0),
        "https://fatalmodel.com/acompanhantes/rio-de-janeiro"
    );
    assert_eq!(
        FatalModelCrawler::listing_url("x", 4294967295),
        "https://fatalmodel.com/acompanhantes/x?page=4294967295"
    );
}

#[test]
fn parse_listing_sorts_dedups_and_fills_stubs() {
    let html = r#"
    <html><body>
        <a href="/acompanhantes/sao-paulo/maria-123456"><img data-src="m.jpg">Maria</a>
        <a href="https://fatalmodel.com/acompanhantes/sao-paulo/ana-789012"><img src="a.jpg"> Ana </a>
        <a href="/acompanhantes/sao-paulo/maria-123456">Maria again</a>
        <a href="/acompanhantes/sao-paulo?page=2">next-page</a>
        <a href="/acompanhantes/regiao-sul/sao-paulo">city link</a>
        <a href="/acompanhantes/x-sao-paulo">z-link</a>
        <a href="/acompanhantes/sao-paulo/empty-1"> </a>
        <a href="/acompanhantes/a-b">short</a>
    </body></html>
    "#;
    let stubs = FatalModelCrawler::parse_listing_page(html, "sao-paulo");
    assert_eq!(stubs.len(), 3);
    assert_eq!(stubs[2].url, "https://fatalmodel.com/acompanhantes/x-sao-paulo");
    assert_eq!(stubs[2].thumbnail_url, None);
    assert_eq!(stubs[0].url, "https://fatalmodel.com/acompanhantes/sao-paulo/ana-789012");
    assert_eq!(stubs[0].name, "Ana");
    assert_eq!(stubs[0].thumbnail_url.as_deref(), Some("a.jpg"));
    assert_eq!(stubs[1].url, "https://fatalmodel.com/acompanhantes/sao-paulo/maria-123456");
    assert_eq!(stubs[1].name, "Maria");
    assert_eq!(stubs[1].thumbnail_url.as_deref(), Some("m.jpg"));
    assert!(stubs.iter().all(|s| s.city == "sao-paulo"));
}

fn card(href: Option<&str>, text: &[&str]) -> ListingCard {
    ListingCard {
        href: href.map(String::from),
        text: text.iter().map(|s| s.to_string()).collect(),
        thumbnail_url: None,
    }
}

#[test]
fn card_stub_rules() {
    let ok = card(Some("/acompanhantes/sp/julia-42"), &["  Julia ", "Souza"]);
    let stub = FatalModelCrawler::card_stub(&ok, "sp").unwrap();
    assert_eq!(stub.url, "https://fatalmodel.com/acompanhantes/sp/julia-42");
    assert_eq!(stub.name, "Julia  Souza");
    // No href.
    assert!(FatalModelCrawler::card_stub(&card(None, &["x"]), "sp").is_none());
    // Too short (20 bytes or fewer).
    assert!(FatalModelCrawler::card_stub(&card(Some("/acompanhantes/ab-12"), &["x"]), "sp").is_none());
    // Links to the city listing itself.
    assert!(FatalModelCrawler::card_stub(&card(Some("/acompanhantes/long-name/sp"), &["x"]), "sp").is_none());
    // Absolute links stay as they are.
    let abs = card(Some("http://other.example/acompanhantes/sp/bia-7"), &["Bia"]);
    assert_eq!(FatalModelCrawler::card_stub(&abs, "sp").unwrap().url, "http://other.example/acompanhantes/sp/bia-7");
}

#[test]
fn stubs_from_cards_keeps_first_of_each_url() {
    let mut first = card(Some("/acompanhantes/sp/zoe-1"), &["Zoe"]);
    first.thumbnail_url = Some("first.jpg".to_string());
    let mut second = card(Some("/acompanhantes/sp/zoe-1"), &["Zoe Two"]);
    second.thumbnail_url = Some("second.jpg".to_string());
    let other = card(Some("/acompanhantes/sp/amy-2"), &["Amy"]);
    let stubs = arachne::crawler::fatal_model::stubs_from_cards(&vec![first, other, second], "sp");
    assert_eq!(stubs.len(), 2);
    assert_eq!(stubs[0].name, "Amy");
    assert_eq!(stubs[1].name, "Zoe");
    assert_eq!(stubs[1].thumbnail_url.as_deref(), Some("first.jpg"));
}

fn el(text: &[&str], attrs: &[Option<&str>]) -> HtmlElement {
    HtmlElement {
        text: text.iter().map(|s| s.to_string()).collect(),
        attrs: attrs.iter().map(|a| a.map(String::from)).collect(),
        html: String::new(),
    }
}

fn empty_parts() -> ProfilePageParts {
    ProfilePageParts {
        heading: Some(vec![]),
        bio: Some(vec![]),
        age: Some(vec![]),
        phone: Some(vec![]),
        photos: Some(vec![]),
        services: Some(vec![]),
        prices: Some(vec![]),
        height: Some(vec![]),
        weight: Some(vec![]),
        ethnicity: Some(vec![]),
        hair: Some(vec![]),
        eyes: Some(vec![]),
        state: Some(vec![]),
    }
}

fn stub(url: &str) -> ProfileStub {
    ProfileStub {
        name: "Stub Name".to_string(),
        url: url.to_string(),
        thumbnail_url: None,
        city: "sao-paulo".to_string(),
    }
}

#[test]
fn assemble_profile_from_parts() {
    let mut parts = empty_parts();
    parts.heading = Some(vec![el(&[" Maria ", "Silva"], &[])]);
    parts.age = Some(vec![el(&["25 anos"], &[])]);
    parts.phone = Some(vec![el(&["(11) 99999-1234"], &[])]);
    parts.photos = Some(vec![
        el(&[], &[Some("https://cdn/1.jpg"), None]),
        el(&[], &[None, Some("https://cdn/2.jpg")]),
        el(&[], &[Some("https://cdn/placeholder.png"), None]),
        el(&[], &[Some("https://cdn/avatar.png"), None]),
        el(&[], &[None, None]),
    ]);
    parts.services = Some(vec![el(&["Massagem"], &[]), el(&["  "], &[]), el(&["Jantar"], &[])]);
    parts.prices = Some(vec![el(&["R$ 1.250,50"], &[Some("price-hour")]), el(&["R$200"], &[None]), el(&[" "], &[Some("x")])]);
    parts.height = Some(vec![el(&["1,70 m"], &[])]);
    parts.eyes = Some(vec![el(&["castanhos"], &[])]);
    parts.state = Some(vec![el(&["SP"], &[])]);
    let p = FatalModelCrawler::assemble_profile(&parts, &stub("https://fatalmodel.com/acompanhantes/sao-paulo/maria-123456"), 42);
    assert_eq!(p.name, "Maria  Silva");
    assert_eq!(p.age, Some(25));
    assert_eq!(p.phone.as_deref(), Some("+5511999991234"));
    assert_eq!(p.photo_urls, vec!["https://cdn/1.jpg", "https://cdn/2.jpg"]);
    assert_eq!(p.services, vec!["Massagem", "Jantar"]);
    assert_eq!(p.pricing.len(), 2);
    assert_eq!(p.pricing[0].label, "price-hour");
    assert_eq!(p.pricing[0].amount_text, "1250.50");
    assert_eq!(p.pricing[1].label, "price");
    assert_eq!(p.pricing[1].amount_text, "200");
    assert_eq!(p.body_stats.len(), 2);
    assert_eq!((p.body_stats[0].key.as_str(), p.body_stats[0].value.as_str()), ("height", "1,70 m"));
    assert_eq!((p.body_stats[1].key.as_str(), p.body_stats[1].value.as_str()), ("eyes", "castanhos"));
    assert_eq!(p.state.as_deref(), Some("SP"));
    assert_eq!(p.bio, None);
    assert_eq!(p.source_id.as_deref(), Some("123456"));
    assert_eq!(p.site, "fatal_model");
    assert_eq!(p.city, "sao-paulo");
    assert_eq!(p.scraped_at_micros, 42);
}

#[test]
fn assemble_profile_fallbacks() {
    let parts = empty_parts();
    let p = FatalModelCrawler::assemble_profile(&parts, &stub("https://fatalmodel.com/acompanhantes/sp/maria-x1"), 0);
    assert_eq!(p.name, "Stub Name");
    assert_eq!(p.source_id, None);
    assert_eq!(p.age, None);
    assert!(p.photo_urls.is_empty() && p.services.is_empty() && p.pricing.is_empty());
    let mut parts = empty_parts();
    parts.age = Some(vec![el(&["idade: 99999999999"], &[])]);
    let p = FatalModelCrawler::assemble_profile(&parts, &stub("https://x/y/"), 0);
    assert_eq!(p.age, None);
    assert_eq!(p.source_id, None);
}

#[test]
fn parse_profile_page_reads_the_page() {
    let html = r#"
    <html><body>
      <h1> Carla  Dias </h1>
      <div class="profile-description">Sobre mim</div>
      <span class="user-age">Idade: 31</span>
      <a href="tel:+5521988887777">(21) 98888-7777</a>
      <div class="gallery"><img src="https://cdn/p1.jpg"><img data-src="https://cdn/p2.jpg"><img src="https://cdn/avatar.jpg"></div>
      <ul class="services"><li>Jantar</li><li>Viagens</li></ul>
      <span class="price-hour">R$ 300,00</span>
      <span class="altura">1,65</span>
    </body></html>
    "#;
    let p = FatalModelCrawler::parse_profile_page(html, &stub("https://fatalmodel.com/acompanhantes/rj/carla-555")).unwrap();
    assert_eq!(p.name, "Carla  Dias");
    assert_eq!(p.bio.as_deref(), Some("Sobre mim"));
    assert_eq!(p.age, Some(31));
    assert_eq!(p.phone.as_deref(), Some("+5521988887777"));
    assert_eq!(p.photo_urls, vec!["https://cdn/p1.jpg", "https://cdn/p2.jpg"]);
    assert_eq!(p.services, vec!["Jantar", "Viagens"]);
    assert_eq!(p.pricing.len(), 1);
    assert_eq!(p.pricing[0].amount_text, "300.00");
    assert_eq!(p.body_stats.len(), 1);
    assert_eq!(p.body_stats[0].key, "height");
    assert_eq!(p.source_id.as_deref(), Some("555"));
    assert!(p.scraped_at_micros > 0);
}

#[test]
fn site_name_is_fatal_model() {
    assert_eq!(FatalModelCrawler.site_name(), "fatal_model");
}

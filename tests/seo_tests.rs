use eldroid_ssg::seo::{SEOConfig, SocialMedia};
use eldroid_ssg::seo_html::generate_meta_tags;
use eldroid_ssg::seo_types::{JsonLd, PageSEO};

fn config() -> SEOConfig {
    SEOConfig {
        site_name: "Example".to_string(),
        base_url: Some("https://ex.com/".to_string()),
        default_description: "Default".to_string(),
        default_keywords: vec![],
        twitter_handle: None,
        facebook_app_id: None,
        google_site_verification: None,
        organization: None,
        default_language: None,
        social_media: Some(SocialMedia {
            twitter_site: Some("@ex".to_string()),
            twitter_creator: None,
            facebook_page: None,
            linkedin_page: None,
            instagram_profile: None,
        }),
        structured_data: None,
    }
}

fn page() -> PageSEO {
    PageSEO {
        title: "Post".to_string(),
        description: Some("D".to_string()),
        keywords: Some(vec!["a".to_string(), "b".to_string()]),
        url: None,
        canonical_url: None,
        path: "/blog/post".to_string(),
        image: Some("/i.png".to_string()),
        author: Some("Ann".to_string()),
        published_date: Some("2024-01-02T00:00:00+00:00".to_string()),
        last_modified: None,
        category: Some("Tech".to_string()),
        tags: Some(vec!["x".to_string(), "y".to_string()]),
        schema_type: Some("BlogPosting".to_string()),
        structured_data: None,
        change_frequency: None,
    }
}

#[test]
fn article_record_of_a_page() {
    let a = JsonLd::new_article(&page(), &config());
    assert_eq!(a.context, "https://schema.org");
    assert_eq!(a.type_, "Article");
    assert_eq!(a.headline, "Post");
    assert_eq!(a.url, "https://ex.com//blog/post");
    assert_eq!(a.image, Some(vec!["/i.png".to_string()]));
    assert_eq!(a.author.unwrap().name, "Ann");
    assert!(a.publisher.is_none());
    assert_eq!(a.keywords, Some("x, y".to_string()));
    assert_eq!(a.article_section, Some("Tech".to_string()));
    assert!(a.is_accessible_for_free);
}

#[test]
fn meta_tags_of_a_blog_post() {
    let out = generate_meta_tags(&page(), &config(), "{}");
    let expected = "<title>Post</title>\n<meta name=\"description\" content=\"D\" />\n\
<meta name=\"keywords\" content=\"a, b\" />\n\
<link rel=\"canonical\" href=\"https://ex.com//blog/post\" />\n\
<meta property=\"og:title\" content=\"Post\" />\n<meta property=\"og:type\" content=\"article\" />\n\
<meta property=\"og:url\" content=\"https://ex.com//blog/post\" />\n\
<meta property=\"og:description\" content=\"D\" />\n\
<meta property=\"og:image\" content=\"/i.png\" />\n<meta property=\"og:image:alt\" content=\"Post\" />\n\
<meta name=\"twitter:card\" content=\"summary_large_image\" />\
\n<meta name=\"twitter:site\" content=\"@ex\" />\
\n<meta name=\"twitter:title\" content=\"Post\" />\
\n<meta name=\"twitter:description\" content=\"D\" />\
\n<meta property=\"article:author\" content=\"Ann\" />\
\n<meta property=\"article:published_time\" content=\"2024-01-02T00:00:00+00:00\" />\
\n<meta property=\"article:section\" content=\"Tech\" />\
\n<meta property=\"article:tag\" content=\"x\" />\
\n<meta property=\"article:tag\" content=\"y\" />\
\n<script type=\"application/ld+json\">\n{}\n</script>";
    assert_eq!(out, expected);
}

#[test]
fn meta_tags_fall_back_to_site_defaults() {
    let mut p = page();
    p.description = None;
    p.keywords = None;
    p.image = None;
    p.schema_type = None;
    p.path = "about".to_string();
    let mut c = config();
    c.base_url = None;
    c.social_media = None;
    let out = generate_meta_tags(&p, &c, "{}");
    assert!(out.starts_with("<title>Post</title>\n<meta name=\"description\" content=\"Default\" />\n<link rel=\"canonical\" href=\"/about\" />"));
    assert!(!out.contains("article:"));
    assert!(!out.contains("twitter:site"));
}

#[test]
fn feed_lists_posts_below_the_input_directory() {
    let items = vec![
        eldroid_ssg::seo_gen::RssItem {
            source: "content/blog/first.md".to_string(),
            title: "First".to_string(),
            description: None,
            pub_date: "Tue, 02 Jan 2024 00:00:00 GMT".to_string(),
            author: Some("Ann".to_string()),
            body: "# Hi".to_string(),
        },
        eldroid_ssg::seo_gen::RssItem {
            source: "elsewhere/x.md".to_string(),
            title: "X".to_string(),
            description: Some("d".to_string()),
            pub_date: String::new(),
            author: None,
            body: String::new(),
        },
    ];
    let xml = eldroid_ssg::seo_gen::rss_xml(&config(), "content", "NOW", &items);
    let expected = "<?xml version=\"1.0\" encoding=\"UTF-8\"?>\n<rss version=\"2.0\" xmlns:content=\"http://purl.org/rss/1.0/modules/content/\"\n                     xmlns:dc=\"http://purl.org/dc/elements/1.1/\"\n                     xmlns:atom=\"http://www.w3.org/2005/Atom\">\n    <channel>\n        <title>Example</title>\n        <link>https://ex.com/</link>\n        <description>Default</description>\n        <language>en-us</language>\n        <lastBuildDate>NOW</lastBuildDate>\n        <atom:link href=\"https://ex.com//rss.xml\" rel=\"self\" type=\"application/rss+xml\"/>\
\n        <item>\n            <title>First</title>\n            <link>https://ex.com/blog/first.html</link>\n            <description><![CDATA[No description available]]></description>\n            <pubDate>Tue, 02 Jan 2024 00:00:00 GMT</pubDate>\n            <guid isPermaLink=\"true\">https://ex.com/blog/first.html</guid>\n            <dc:creator>Ann</dc:creator>\n            <content:encoded><![CDATA[<h1>Hi</h1>\n]]></content:encoded>\n        </item>\
\n    </channel>\n</rss>";
    assert_eq!(xml, expected);
}

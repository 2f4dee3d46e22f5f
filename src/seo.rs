//! Site-wide search-engine metadata, as read from the site's configuration.
use vstd::prelude::*;
pub use crate::seo_types::PageSEO;

verus! {

#[derive(Clone, Debug)]
pub struct SEOConfig {
    pub site_name: String,
    pub base_url: Option<String>,
    pub default_description: String,
    pub default_keywords: Vec<String>,
    pub twitter_handle: Option<String>,
    pub facebook_app_id: Option<String>,
    pub google_site_verification: Option<String>,
    pub organization: Option<Organization>,
    pub default_language: Option<String>,
    pub social_media: Option<SocialMedia>,
    pub structured_data: Option<StructuredData>,
}

#[derive(Clone, Debug)]
pub struct Organization {
    pub name: String,
    pub logo: Option<String>,
    pub social_profiles: Option<Vec<String>>,
}

#[derive(Clone, Debug)]
pub struct SocialMedia {
    pub twitter_site: Option<String>,
    pub twitter_creator: Option<String>,
    pub facebook_page: Option<String>,
    pub linkedin_page: Option<String>,
    pub instagram_profile: Option<String>,
}

#[derive(Clone, Debug)]
pub struct StructuredData {
    pub site_search_url: Option<String>,
    pub contact_point: Option<ContactPoint>,
    pub same_as: Option<Vec<String>>,
}

#[derive(Clone, Debug)]
pub struct ContactPoint {
    pub telephone: String,
    pub contact_type: String,
    pub email: Option<String>,
    pub area_served: Option<String>,
    pub available_language: Option<Vec<String>>,
}

} // verus!

//! Manifest data model: a versioned envelope of metadata plus exactly one
//! kind payload (api, configuration, request or story), and the accessors
//! the execution pipeline uses.

use vstd::prelude::*;

use crate::dict::Dict;
use crate::dict::key_seq;
use crate::dict::lemma_key_seq_not_contains;
use crate::dict::lookup;
use crate::json::Json;

verus! {

/// An API description payload.
#[derive(Debug)]
pub struct ApixApi {
    pub url: String,
    pub version: String,
    pub description: Option<String>,
}

impl ApixApi {
    pub fn new(url: String, version: String, description: Option<String>) -> (r: Self)
        ensures
            r.url == url,
            r.version == version,
            r.description == description,
    {
        Self { url, version, description }
    }
}

impl Default for ApixApi {
    /// An empty API description.
    fn default() -> (r: Self)
        ensures
            r.url@ == Seq::<char>::empty(),
            r.version@ == Seq::<char>::empty(),
            r.description is None,
    {
        ApixApi { url: String::new(), version: String::new(), description: None }
    }
}

/// A declared request parameter: whether it must be supplied, whether its
/// prompt is masked, and the JSON schema its value must satisfy.
#[derive(Debug)]
pub struct ApixParameter {
    pub name: String,
    pub required: bool,
    pub password: bool,
    pub description: Option<String>,
    pub schema: Option<Json>,
}

impl ApixParameter {
    pub fn new(
        name: String,
        required: bool,
        password: bool,
        description: Option<String>,
        schema: Option<Json>,
    ) -> (r: Self)
        ensures
            r.name == name,
            r.required == required,
            r.password == password,
            r.description == description,
            r.schema == schema,
    {
        Self { name, required, password, description, schema }
    }
}

/// The templated fields of a request: method, url, ordered headers and
/// queries, and an optional body whose string leaves may be templates.
#[derive(Debug)]
pub struct ApixRequestTemplate {
    pub method: String,
    pub url: String,
    pub headers: Dict,
    pub queries: Dict,
    pub body: Option<Json>,
}

impl ApixRequestTemplate {
    pub fn new(
        method: String,
        url: String,
        headers: Dict,
        queries: Dict,
        body: Option<Json>,
    ) -> (r: Self)
        ensures
            r.method == method,
            r.url == url,
            r.headers == headers,
            r.queries == queries,
            r.body == body,
    {
        Self { method, url, headers, queries, body }
    }
}

/// A request payload: parameters, local template context, and the request
/// template itself.
#[derive(Debug)]
pub struct ApixRequest {
    pub parameters: Vec<ApixParameter>,
    pub context: Vec<(String, Json)>,
    pub request: ApixRequestTemplate,
}

impl ApixRequest {
    pub fn new(
        parameters: Vec<ApixParameter>,
        context: Vec<(String, Json)>,
        request: ApixRequestTemplate,
    ) -> (r: Self)
        ensures
            r.parameters == parameters,
            r.context == context,
            r.request == request,
    {
        Self { parameters, context, request }
    }
}

/// One step of a story: an optional condition and a request template.
#[derive(Debug)]
pub struct ApixStep {
    pub name: String,
    pub description: Option<String>,
    pub context: Dict,
    pub condition: Option<String>,
    pub request: ApixRequestTemplate,
}

/// A story: named request steps over named environments.
#[derive(Debug)]
pub struct ApixStory {
    pub name: String,
    pub needs: Option<String>,
    pub description: Option<String>,
    pub context: Vec<(String, Vec<(String, Json)>)>,
    pub steps: Vec<ApixStep>,
}

/// A stories payload: shared parameters and the stories.
#[derive(Debug)]
pub struct ApixStories {
    pub parameters: Vec<ApixParameter>,
    pub stories: Vec<ApixStory>,
}

/// A configuration payload: ordered key-value entries.
#[derive(Debug)]
pub struct ApixConfiguration {
    pub index: Dict,
}

impl ApixConfiguration {
    /// The configured value under `key`.
    pub fn get(&self, key: &str) -> (r: Option<&String>)
        ensures
            r is Some <==> lookup(self.index@, key@) is Some,
            r matches Some(v) ==> lookup(self.index@, key@) == Some(v@),
    {
        self.index.get(key)
    }

    /// Sets `key` to `value`, returning the replaced value.
    pub fn set(&mut self, key: String, value: String) -> (r: Option<String>)
        ensures
            lookup(final(self).index@, key@) == Some(value@),
            forall|k2: Seq<char>|
                k2 != key@ ==> lookup(final(self).index@, k2) == lookup(old(self).index@, k2),
            r is Some <==> lookup(old(self).index@, key@) is Some,
            r matches Some(v) ==> lookup(old(self).index@, key@) == Some(v@),
    {
        self.index.insert(key, value)
    }

    /// Removes `key`, taking out the first entry holding it and keeping
    /// the order of the rest; returns the removed value.
    pub fn delete(&mut self, key: &str) -> (r: Option<String>)
        ensures
            r is Some <==> lookup(old(self).index@, key@) is Some,
            r matches Some(v) ==> lookup(old(self).index@, key@) == Some(v@),
            r is None ==> final(self).index@ == old(self).index@,
            r is Some ==> exists|i: int|
                {
                    &&& 0 <= i < old(self).index@.len()
                    &&& (#[trigger] old(self).index@[i]).0 == key@
                    &&& (forall|j: int| 0 <= j < i ==> old(self).index@[j].0 != key@)
                    &&& final(self).index@ == old(self).index@.remove(i)
                },
    {
        self.index.remove(key)
    }

    /// Fills in the configuration entries that must always exist: the
    /// default display theme.
    pub fn set_defaults(&mut self)
        ensures
            lookup(final(self).index@, "theme"@) is Some,
            lookup(old(self).index@, "theme"@) is Some ==> final(self).index@ == old(
                self,
            ).index@,
            lookup(old(self).index@, "theme"@) is None ==> final(self).index@ == old(
                self,
            ).index@.push(("theme"@, "Monokai Extended"@)),
    {
        if self.index.get("theme").is_none() {
            proof {
                crate::dict::lemma_lookup_some_position(self.index@, "theme"@);
                lemma_key_seq_not_contains(self.index@, "theme"@);
            }
            self.index.insert(String::from_str("theme"), String::from_str("Monokai Extended"));
        }
    }
}

impl Default for ApixConfiguration {
    /// The configuration holding exactly the default theme.
    fn default() -> (r: Self)
        ensures
            r.index@ == Seq::<(Seq<char>, Seq<char>)>::empty().push(
                ("theme"@, "Monokai Extended"@),
            ),
    {
        let mut c = ApixConfiguration { index: Dict::new() };
        c.set_defaults();
        c
    }
}

/// The configuration payload of a manifest, with the default theme filled
/// in; anything else is the wrong kind of manifest for configuration.
pub fn configuration_from_manifest(manifest: &ApixManifest) -> (r: Result<
    ApixConfiguration,
    crate::error::ApixError,
>)
    ensures
        r is Ok <==> (*manifest matches ApixManifest::V1(m) && m.kind is Configuration),
        r matches Ok(c) ==> (*manifest matches ApixManifest::V1(m) && m.kind matches
            ApixKind::Configuration(c0) && lookup(c.index@, "theme"@) is Some && (lookup(
            c0.index@,
            "theme"@,
        ) is Some ==> c.index@ == c0.index@) && (lookup(c0.index@, "theme"@) is None ==> c.index@
            == c0.index@.push(("theme"@, "Monokai Extended"@)))),
        r matches Err(e) ==> e is Manifest,
{
    match manifest {
        ApixManifest::V1(m) => {
            match &m.kind {
                ApixKind::Configuration(c0) => {
                    let mut c = ApixConfiguration {
                        index: c0.index.duplicate(),
                    };
                    c.set_defaults();
                    Ok(c)
                },
                _ => Err(
                    crate::error::ApixError::Manifest(String::from_str("Configuration manifest expected")),
                ),
            }
        },
        ApixManifest::Empty => Err(
            crate::error::ApixError::Manifest(String::from_str("Configuration manifest expected")),
        ),
    }
}

/// The one payload a manifest carries.
#[derive(Debug)]
pub enum ApixKind {
    Api(ApixApi),
    Configuration(ApixConfiguration),
    Request(ApixRequest),
    Story(ApixStories),
    Empty,
}

impl Default for ApixKind {
    fn default() -> (r: Self)
        ensures
            r is Empty,
    {
        ApixKind::Empty
    }
}

impl ApixKind {
    pub fn as_api(&self) -> (r: Option<&ApixApi>)
        ensures
            r is Some <==> self is Api,
            r matches Some(a) ==> *self matches ApixKind::Api(b) && *a == b,
    {
        match self {
            ApixKind::Api(api) => Some(api),
            _ => None,
        }
    }

    pub fn as_configuration(&self) -> (r: Option<&ApixConfiguration>)
        ensures
            r is Some <==> self is Configuration,
            r matches Some(a) ==> *self matches ApixKind::Configuration(b) && *a == b,
    {
        match self {
            ApixKind::Configuration(configuration) => Some(configuration),
            _ => None,
        }
    }

    pub fn as_request(&self) -> (r: Option<&ApixRequest>)
        ensures
            r is Some <==> self is Request,
            r matches Some(a) ==> *self matches ApixKind::Request(b) && *a == b,
    {
        match self {
            ApixKind::Request(request) => Some(request),
            _ => None,
        }
    }

    pub fn as_story(&self) -> (r: Option<&ApixStories>)
        ensures
            r is Some <==> self is Story,
            r matches Some(a) ==> *self matches ApixKind::Story(b) && *a == b,
    {
        match self {
            ApixKind::Story(story) => Some(story),
            _ => None,
        }
    }
}

/// Relies on whoami::username: the login name of the current user, for the
/// created-by annotation. The result depends on the environment, so nothing
/// is promised of it.
#[verifier::external_body]
fn current_username() -> (r: String) {
    whoami::username()
}

/// Relies on chrono's Utc::now and DateTime::to_rfc3339: the current time,
/// for the created-at annotation. The result depends on the clock, so
/// nothing is promised of it.
#[verifier::external_body]
fn now_rfc3339() -> (r: String) {
    chrono::Utc::now().to_rfc3339()
}

/// The provenance annotations every generated manifest carries: who created
/// it and when.
fn creation_annotations() -> (r: Dict)
    ensures
        key_seq(r@) =~= seq!["apix.io/created-by"@, "apix.io/created-at"@],
{
    proof {
        reveal_strlit("apix.io/created-by");
        reveal_strlit("apix.io/created-at");
    }
    let mut annotations = Dict::new();
    let ghost v0 = annotations@;
    annotations.insert(String::from_str("apix.io/created-by"), current_username());
    let ghost v1 = annotations@;
    proof {
        lemma_key_seq_not_contains(v0, "apix.io/created-by"@);
        assert(v1[0].0 == "apix.io/created-by"@);
        assert(("apix.io/created-by"@)[16] != ("apix.io/created-at"@)[16]);
        lemma_key_seq_not_contains(v1, "apix.io/created-at"@);
    }
    annotations.insert(String::from_str("apix.io/created-at"), now_rfc3339());
    proof {
        assert(annotations@ == v1.push(("apix.io/created-at"@, annotations@[1].1)));
        assert(key_seq(annotations@) =~= seq!["apix.io/created-by"@, "apix.io/created-at"@]);
    }
    annotations
}

/// Manifest metadata: the name, display labels, execution-directive
/// annotations, and free-form extensions.
#[derive(Debug)]
pub struct ApixMetadata {
    pub name: String,
    pub labels: Dict,
    pub annotations: Dict,
    pub extensions: Dict,
}

/// The first manifest layout: metadata plus one kind payload.
#[derive(Debug)]
pub struct ApixManifestV1 {
    pub metadata: ApixMetadata,
    pub kind: ApixKind,
}

/// A versioned manifest envelope.
#[derive(Debug)]
pub enum ApixManifest {
    V1(ApixManifestV1),
    Empty,
}

impl Default for ApixManifest {
    fn default() -> (r: Self)
        ensures
            r is Empty,
    {
        ApixManifest::Empty
    }
}

impl ApixManifest {
    /// The manifest's name; empty for the empty manifest.
    pub fn name(&self) -> (r: &str)
        ensures
            *self matches ApixManifest::V1(m) ==> r@ == m.metadata.name@,
            self is Empty ==> r@ == ""@,
    {
        match self {
            ApixManifest::V1(manifest) => manifest.metadata.name.as_str(),
            ApixManifest::Empty => "",
        }
    }

    /// The version tag of the manifest layout.
    pub fn version(&self) -> (r: &str)
        ensures
            self is V1 ==> r@ == "apix.io/v1"@,
            self is Empty ==> r@ == ""@,
    {
        match self {
            ApixManifest::V1(_) => "apix.io/v1",
            ApixManifest::Empty => "",
        }
    }

    /// The kind payload; the empty manifest has the empty kind.
    pub fn kind(&self) -> (r: &ApixKind)
        ensures
            *self matches ApixManifest::V1(m) ==> *r == m.kind,
            self is Empty ==> r is Empty,
    {
        match self {
            ApixManifest::V1(manifest) => &manifest.kind,
            ApixManifest::Empty => &ApixKind::Empty,
        }
    }

    /// The metadata extension under `key`.
    pub fn get_metadata(&self, key: &str) -> (r: Option<&String>)
        ensures
            *self matches ApixManifest::V1(m) ==> (r is Some <==> lookup(
                m.metadata.extensions@,
                key@,
            ) is Some),
            *self matches ApixManifest::V1(m) ==> (r matches Some(v) ==> lookup(
                m.metadata.extensions@,
                key@,
            ) == Some(v@)),
            self is Empty ==> r is None,
    {
        match self {
            ApixManifest::V1(manifest) => manifest.metadata.extensions.get(key),
            ApixManifest::Empty => None,
        }
    }

    /// Stores a metadata extension; the empty manifest ignores it.
    pub fn insert_metadata(&mut self, key: String, value: String)
        ensures
            *old(self) is Empty ==> *final(self) is Empty,
            *old(self) matches ApixManifest::V1(m) ==> *final(self) matches ApixManifest::V1(m2)
                && m2.metadata.name == m.metadata.name && m2.metadata.labels == m.metadata.labels
                && m2.metadata.annotations == m.metadata.annotations && m2.kind == m.kind && lookup(
                m2.metadata.extensions@,
                key@,
            ) == Some(value@),
    {
        match self {
            ApixManifest::V1(manifest) => {
                manifest.metadata.extensions.insert(key, value);
            },
            ApixManifest::Empty => (),
        }
    }

    /// The annotation under `key`.
    pub fn get_annotation(&self, key: &str) -> (r: Option<&String>)
        ensures
            *self matches ApixManifest::V1(m) ==> (r is Some <==> lookup(
                m.metadata.annotations@,
                key@,
            ) is Some),
            *self matches ApixManifest::V1(m) ==> (r matches Some(v) ==> lookup(
                m.metadata.annotations@,
                key@,
            ) == Some(v@)),
            self is Empty ==> r is None,
    {
        match self {
            ApixManifest::V1(manifest) => manifest.metadata.annotations.get(key),
            ApixManifest::Empty => None,
        }
    }

    /// All annotations, in order.
    pub fn get_annotations(&self) -> (r: Option<&Dict>)
        ensures
            r is Some <==> self is V1,
            *self matches ApixManifest::V1(m) ==> (r matches Some(d) && *d == m.metadata.annotations),
    {
        match self {
            ApixManifest::V1(manifest) => Some(&manifest.metadata.annotations),
            ApixManifest::Empty => None,
        }
    }

    /// A fresh manifest around an API description, under the standard
    /// labels and provenance annotations.
    pub fn new_api(name: String, api: Option<ApixApi>) -> (r: Self)
        ensures
            r matches ApixManifest::V1(m) && m.metadata.name == name && lookup(
                m.metadata.labels@,
                "app"@,
            ) == Some("apix"@) && key_seq(m.metadata.annotations@) =~= seq![
                "apix.io/created-by"@,
                "apix.io/created-at"@,
            ] && m.metadata.extensions@.len() == 0 && m.kind is Api,
            (r matches ApixManifest::V1(m) && api matches Some(a) ==> m.kind == ApixKind::Api(a)),
    {
        proof {
            reveal_strlit("app");
        }
        let mut labels = Dict::new();
        labels.insert(String::from_str("app"), String::from_str("apix"));
        let api_payload = match api {
            Some(a) => a,
            None => ApixApi::default(),
        };
        ApixManifest::V1(
            ApixManifestV1 {
                metadata: ApixMetadata {
                    name,
                    labels,
                    annotations: creation_annotations(),
                    extensions: Dict::new(),
                },
                kind: ApixKind::Api(api_payload),
            },
        )
    }

    /// A fresh manifest around a request, labelled with the API it belongs
    /// to, under the standard provenance annotations.
    pub fn new_request(api: String, name: String, request: ApixRequest) -> (r: Self)
        ensures
            r matches ApixManifest::V1(m) && m.metadata.name == name && lookup(
                m.metadata.labels@,
                "app"@,
            ) == Some("apix"@) && lookup(m.metadata.labels@, "apix.io/api"@) == Some(api@)
                && key_seq(m.metadata.annotations@) =~= seq![
                "apix.io/created-by"@,
                "apix.io/created-at"@,
            ] && m.metadata.extensions@.len() == 0 && m.kind == ApixKind::Request(request),
    {
        proof {
            reveal_strlit("app");
            reveal_strlit("apix.io/api");
        }
        let mut labels = Dict::new();
        let ghost l0 = labels@;
        labels.insert(String::from_str("app"), String::from_str("apix"));
        let ghost l1 = labels@;
        proof {
            lemma_key_seq_not_contains(l0, "app"@);
            assert(l1 =~= l0.push(("app"@, "apix"@)));
            assert(l1[0].0 == "app"@);
            lemma_key_seq_not_contains(l1, "apix.io/api"@);
        }
        labels.insert(String::from_str("apix.io/api"), api);
        proof {
            assert(lookup(labels@, "app"@) == Some("apix"@));
        }
        ApixManifest::V1(
            ApixManifestV1 {
                metadata: ApixMetadata {
                    name,
                    labels,
                    annotations: creation_annotations(),
                    extensions: Dict::new(),
                },
                kind: ApixKind::Request(request),
            },
        )
    }

    /// A fresh manifest around stories, labelled with the API they belong
    /// to, under the standard provenance annotations.
    pub fn new_stories(api: String, name: String, stories: ApixStories) -> (r: Self)
        ensures
            r matches ApixManifest::V1(m) && m.metadata.name == name && lookup(
                m.metadata.labels@,
                "app"@,
            ) == Some("apix"@) && lookup(m.metadata.labels@, "apix.io/api"@) == Some(api@)
                && key_seq(m.metadata.annotations@) =~= seq![
                "apix.io/created-by"@,
                "apix.io/created-at"@,
            ] && m.metadata.extensions@.len() == 0 && m.kind == ApixKind::Story(stories),
    {
        proof {
            reveal_strlit("app");
            reveal_strlit("apix.io/api");
        }
        let mut labels = Dict::new();
        let ghost l0 = labels@;
        labels.insert(String::from_str("app"), String::from_str("apix"));
        let ghost l1 = labels@;
        proof {
            lemma_key_seq_not_contains(l0, "app"@);
            assert(l1 =~= l0.push(("app"@, "apix"@)));
            assert(l1[0].0 == "app"@);
            lemma_key_seq_not_contains(l1, "apix.io/api"@);
        }
        labels.insert(String::from_str("apix.io/api"), api);
        proof {
            assert(lookup(labels@, "app"@) == Some("apix"@));
        }
        ApixManifest::V1(
            ApixManifestV1 {
                metadata: ApixMetadata {
                    name,
                    labels,
                    annotations: creation_annotations(),
                    extensions: Dict::new(),
                },
                kind: ApixKind::Story(stories),
            },
        )
    }

    /// The manifest that stores a configuration; there is one configuration
    /// per user, so the name is fixed.
    pub fn new_configuration(config: Option<ApixConfiguration>) -> (r: Self)
        ensures
            r matches ApixManifest::V1(m) && m.metadata.name@ == "configuration"@ && lookup(
                m.metadata.labels@,
                "app"@,
            ) == Some("apix"@) && key_seq(m.metadata.annotations@) =~= seq![
                "apix.io/created-by"@,
                "apix.io/created-at"@,
            ] && m.metadata.extensions@.len() == 0 && m.kind is Configuration,
            (r matches ApixManifest::V1(m) && config matches Some(c) ==> m.kind
                == ApixKind::Configuration(c)),
    {
        proof {
            reveal_strlit("app");
        }
        let mut labels = Dict::new();
        labels.insert(String::from_str("app"), String::from_str("apix"));
        let payload = match config {
            Some(c) => c,
            None => ApixConfiguration::default(),
        };
        ApixManifest::V1(
            ApixManifestV1 {
                metadata: ApixMetadata {
                    name: String::from_str("configuration"),
                    labels,
                    annotations: creation_annotations(),
                    extensions: Dict::new(),
                },
                kind: ApixKind::Configuration(payload),
            },
        )
    }

    /// The label under `key`.
    pub fn get_label(&self, key: &str) -> (r: Option<&String>)
        ensures
            *self matches ApixManifest::V1(m) ==> (r is Some <==> lookup(
                m.metadata.labels@,
                key@,
            ) is Some),
            *self matches ApixManifest::V1(m) ==> (r matches Some(v) ==> lookup(
                m.metadata.labels@,
                key@,
            ) == Some(v@)),
            self is Empty ==> r is None,
    {
        match self {
            ApixManifest::V1(manifest) => manifest.metadata.labels.get(key),
            ApixManifest::Empty => None,
        }
    }
}

} // verus!

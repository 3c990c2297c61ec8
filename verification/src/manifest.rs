//! Plugin metadata as declared in a plugin's `plugin.json`, and its validation.

use vstd::prelude::*;
use vstd::string::*;

verus! {

/// The characters of an optional string.
pub open spec fn opt_chars(o: Option<String>) -> Option<Seq<char>> {
    match o {
        Some(s) => Some(s@),
        None => None,
    }
}

/// The characters of each string of a list.
pub open spec fn strings_view(v: Seq<String>) -> Seq<Seq<char>> {
    v.map_values(|s: String| s@)
}

/// Copy of an optional string.
pub fn clone_opt_string(o: &Option<String>) -> (r: Option<String>)
    ensures
        r == *o,
{
    match o {
        Some(s) => Some(s.clone()),
        None => None,
    }
}

/// Copy of a list of strings.
pub fn clone_strings(v: &Vec<String>) -> (r: Vec<String>)
    ensures
        r@ == v@,
{
    let mut out: Vec<String> = Vec::new();
    let mut i: usize = 0;
    while i < v.len()
        invariant
            i <= v.len(),
            out@ == v@.take(i as int),
        decreases v.len() - i,
    {
        out.push(v[i].clone());
        assert(out@ =~= v@.take(i + 1));
        i = i + 1;
    }
    assert(v@.take(v.len() as int) =~= v@);
    out
}

/// The value of a feature item.
pub struct FeatureItemView {
    pub label: Seq<char>,
    pub action: Seq<char>,
    pub icon: Option<Seq<char>>,
}

/// A sub-item of a declared feature.
#[derive(Debug)]
pub struct FeatureItem {
    pub label: String,
    pub action: String,
    pub icon: Option<String>,
}

impl View for FeatureItem {
    type V = FeatureItemView;

    open spec fn view(&self) -> FeatureItemView {
        FeatureItemView { label: self.label@, action: self.action@, icon: opt_chars(self.icon) }
    }
}

impl Clone for FeatureItem {
    fn clone(&self) -> (r: Self)
        ensures
            r@ == self@,
    {
        FeatureItem {
            label: self.label.clone(),
            action: self.action.clone(),
            icon: clone_opt_string(&self.icon),
        }
    }
}

/// The values of a list of feature items.
pub open spec fn items_view(v: Seq<FeatureItem>) -> Seq<FeatureItemView> {
    v.map_values(|x: FeatureItem| x@)
}

/// Copy of a list of feature items.
pub fn clone_feature_items(v: &Vec<FeatureItem>) -> (r: Vec<FeatureItem>)
    ensures
        items_view(r@) == items_view(v@),
{
    let mut out: Vec<FeatureItem> = Vec::new();
    let mut i: usize = 0;
    while i < v.len()
        invariant
            i <= v.len(),
            out@.len() == i,
            forall|j: int| 0 <= j < i ==> out@[j]@ == v@[j]@,
        decreases v.len() - i,
    {
        out.push(v[i].clone());
        i = i + 1;
    }
    assert(items_view(out@) =~= items_view(v@));
    out
}

/// The value of a declared feature.
pub struct FeatureConfigView {
    pub code: Seq<char>,
    pub label: Seq<char>,
    pub feature_type: Seq<char>,
    pub items: Option<Seq<FeatureItemView>>,
}

/// A feature that a plugin declares in its manifest.
#[derive(Debug)]
pub struct FeatureConfig {
    pub code: String,
    pub label: String,
    pub feature_type: String,
    pub items: Option<Vec<FeatureItem>>,
}

impl View for FeatureConfig {
    type V = FeatureConfigView;

    open spec fn view(&self) -> FeatureConfigView {
        FeatureConfigView {
            code: self.code@,
            label: self.label@,
            feature_type: self.feature_type@,
            items: match self.items {
                Some(v) => Some(items_view(v@)),
                None => None,
            },
        }
    }
}

impl Clone for FeatureConfig {
    fn clone(&self) -> (r: Self)
        ensures
            r@ == self@,
    {
        let items = match &self.items {
            Some(v) => Some(clone_feature_items(v)),
            None => None,
        };
        FeatureConfig {
            code: self.code.clone(),
            label: self.label.clone(),
            feature_type: self.feature_type.clone(),
            items,
        }
    }
}

/// The values of a list of declared features.
pub open spec fn features_view(v: Seq<FeatureConfig>) -> Seq<FeatureConfigView> {
    v.map_values(|x: FeatureConfig| x@)
}

/// Copy of a list of feature configurations.
pub fn clone_features(v: &Vec<FeatureConfig>) -> (r: Vec<FeatureConfig>)
    ensures
        features_view(r@) == features_view(v@),
{
    let mut out: Vec<FeatureConfig> = Vec::new();
    let mut i: usize = 0;
    while i < v.len()
        invariant
            i <= v.len(),
            out@.len() == i,
            forall|j: int| 0 <= j < i ==> out@[j]@ == v@[j]@,
        decreases v.len() - i,
    {
        out.push(v[i].clone());
        i = i + 1;
    }
    assert(features_view(out@) =~= features_view(v@));
    out
}

/// The value of a feature registered at run time.
pub struct RegisteredFeatureView {
    pub code: Seq<char>,
    pub label: Seq<char>,
    pub feature_type: Seq<char>,
}

/// A feature registered at run time by a plugin.
#[derive(Debug)]
pub struct RegisteredFeature {
    pub code: String,
    pub label: String,
    pub feature_type: String,
}

impl View for RegisteredFeature {
    type V = RegisteredFeatureView;

    open spec fn view(&self) -> RegisteredFeatureView {
        RegisteredFeatureView { code: self.code@, label: self.label@, feature_type: self.feature_type@ }
    }
}

impl Clone for RegisteredFeature {
    fn clone(&self) -> (r: Self)
        ensures
            r@ == self@,
    {
        RegisteredFeature {
            code: self.code.clone(),
            label: self.label.clone(),
            feature_type: self.feature_type.clone(),
        }
    }
}

/// The values of a list of registered features.
pub open spec fn registered_view(v: Seq<RegisteredFeature>) -> Seq<RegisteredFeatureView> {
    v.map_values(|x: RegisteredFeature| x@)
}

/// Copy of a list of registered features.
pub fn clone_registered(v: &Vec<RegisteredFeature>) -> (r: Vec<RegisteredFeature>)
    ensures
        registered_view(r@) == registered_view(v@),
{
    let mut out: Vec<RegisteredFeature> = Vec::new();
    let mut i: usize = 0;
    while i < v.len()
        invariant
            i <= v.len(),
            out@.len() == i,
            forall|j: int| 0 <= j < i ==> out@[j]@ == v@[j]@,
        decreases v.len() - i,
    {
        out.push(v[i].clone());
        i = i + 1;
    }
    assert(registered_view(out@) =~= registered_view(v@));
    out
}

/// The value of a plugin manifest.
pub struct ManifestView {
    pub name: Seq<char>,
    pub version: Seq<char>,
    pub plugin_type: Seq<char>,
    pub logo: Option<Seq<char>>,
    pub prefix: Option<Seq<char>>,
    pub main: Option<Seq<char>>,
    pub description: Option<Seq<char>>,
    pub author: Option<Seq<char>>,
    pub patches: Seq<Seq<char>>,
    pub features: Option<Seq<FeatureConfigView>>,
}

/// Plugin metadata (the content of `plugin.json`).
#[derive(Debug)]
pub struct PluginManifest {
    pub name: String,
    pub version: String,
    pub plugin_type: String,
    pub logo: Option<String>,
    pub prefix: Option<String>,
    pub main: Option<String>,
    pub description: Option<String>,
    pub author: Option<String>,
    pub patches: Vec<String>,
    pub features: Option<Vec<FeatureConfig>>,
}

impl View for PluginManifest {
    type V = ManifestView;

    open spec fn view(&self) -> ManifestView {
        ManifestView {
            name: self.name@,
            version: self.version@,
            plugin_type: self.plugin_type@,
            logo: opt_chars(self.logo),
            prefix: opt_chars(self.prefix),
            main: opt_chars(self.main),
            description: opt_chars(self.description),
            author: opt_chars(self.author),
            patches: strings_view(self.patches@),
            features: match self.features {
                Some(v) => Some(features_view(v@)),
                None => None,
            },
        }
    }
}

impl Clone for PluginManifest {
    fn clone(&self) -> (r: Self)
        ensures
            r@ == self@,
    {
        let features = match &self.features {
            Some(v) => Some(clone_features(v)),
            None => None,
        };
        PluginManifest {
            name: self.name.clone(),
            version: self.version.clone(),
            plugin_type: self.plugin_type.clone(),
            logo: clone_opt_string(&self.logo),
            prefix: clone_opt_string(&self.prefix),
            main: clone_opt_string(&self.main),
            description: clone_opt_string(&self.description),
            author: clone_opt_string(&self.author),
            patches: clone_strings(&self.patches),
            features,
        }
    }
}

/// Checks the required fields of a parsed manifest and fills in the defaults.
///
/// Fails on an empty `name`, `version` or `type` (in that order); otherwise
/// keeps every field and sets `main` to `index.js` and `features` to an empty
/// list where they are absent.
pub fn validate_manifest(m: PluginManifest) -> (r: Result<PluginManifest, String>)
    ensures
        m.name@.len() == 0 ==> (r matches Err(e) && e@ == "插件名称 (name) 不能为空"@),
        m.name@.len() != 0 && m.version@.len() == 0 ==> (r matches Err(e) && e@
            == "插件版本 (version) 不能为空"@),
        m.name@.len() != 0 && m.version@.len() != 0 && m.plugin_type@.len() == 0
            ==> (r matches Err(e) && e@ == "插件类型 (type) 不能为空"@),
        r is Ok <==> (m.name@.len() != 0 && m.version@.len() != 0 && m.plugin_type@.len() != 0),
        r matches Ok(out) ==> out@ == (ManifestView {
            main: match m@.main {
                Some(s) => Some(s),
                None => Some("index.js"@),
            },
            features: match m@.features {
                Some(f) => Some(f),
                None => Some(Seq::empty()),
            },
            ..m@
        }),
{
    if m.name.as_str().is_empty() {
        return Err(String::from_str("插件名称 (name) 不能为空"));
    }
    if m.version.as_str().is_empty() {
        return Err(String::from_str("插件版本 (version) 不能为空"));
    }
    if m.plugin_type.as_str().is_empty() {
        return Err(String::from_str("插件类型 (type) 不能为空"));
    }
    let mut out = m;
    if out.main.is_none() {
        out.main = Some(String::from_str("index.js"));
    }
    if out.features.is_none() {
        out.features = Some(Vec::new());
        assert(features_view(Seq::<FeatureConfig>::empty()) =~= Seq::empty());
    }
    assert(out@ =~= (ManifestView {
        main: match m@.main {
            Some(s) => Some(s),
            None => Some("index.js"@),
        },
        features: match m@.features {
            Some(f) => Some(f),
            None => Some(Seq::empty()),
        },
        ..m@
    }));
    Ok(out)
}

} // verus!

use crate::aws::AwsProvider;
use crate::config::{join_pairs, parse_config, parse_spec};
use crate::settings::{is_config_error, required3};
use crate::strmap::StringMap;
use crate::upcloud::UpcloudProvider;
use crate::DiscoveryError;
use vstd::prelude::*;

verus! {

/// The provider that a `Discovery` is bound to, with its settings.
#[derive(Clone, Debug)]
pub enum ProviderSettings {
    Aws(AwsProvider),
    Upcloud(UpcloudProvider),
}

/// Discovery bound to one provider.
#[derive(Clone, Debug)]
pub struct Discovery {
    provider: ProviderSettings,
}

/// Whether `r` is what `Discovery::new` owes for the provider name `name` and
/// the configuration text `config`: the configuration is parsed first, then the
/// name is looked up, then the provider's required keys are read.
pub open spec fn discovery_result(
    name: Seq<char>,
    config: Seq<char>,
    r: Result<Discovery, DiscoveryError>,
) -> bool {
    match parse_spec(config) {
        Err(msg) => r is Err && is_config_error(r->Err_0, msg),
        Ok(m) => if name == "aws"@ {
            match required3(m, "region"@, "tag_key"@, "tag_value"@) {
                Ok(t) => r is Ok && r->Ok_0.settings() is Aws && r->Ok_0.settings()->Aws_0.region@
                    == t.0 && r->Ok_0.settings()->Aws_0.tag_key@ == t.1
                    && r->Ok_0.settings()->Aws_0.tag_value@ == t.2,
                Err(msg) => r is Err && is_config_error(r->Err_0, msg),
            }
        } else if name == "upcloud"@ {
            match required3(m, "zone"@, "label_key"@, "label_value"@) {
                Ok(t) => r is Ok && r->Ok_0.settings() is Upcloud
                    && r->Ok_0.settings()->Upcloud_0.zone@ == t.0
                    && r->Ok_0.settings()->Upcloud_0.label_key@ == t.1
                    && r->Ok_0.settings()->Upcloud_0.label_value@ == t.2,
                Err(msg) => r is Err && is_config_error(r->Err_0, msg),
            }
        } else {
            r is Err && r->Err_0 is UnknownProvider && r->Err_0->UnknownProvider_0@ == name
        },
    }
}

impl Discovery {
    pub closed spec fn settings(&self) -> ProviderSettings {
        self.provider
    }

    /// Parses `config` and binds discovery to the provider named `provider_name`
    /// (`aws` or `upcloud`).
    pub fn new(provider_name: &str, config: &str) -> (r: Result<Discovery, DiscoveryError>)
        ensures
            discovery_result(provider_name@, config@, r),
    {
        let config = match parse_config(config) {
            Ok(c) => c,
            Err(e) => return Err(e),
        };
        let name = String::from_str(provider_name);
        if name == String::from_str("aws") {
            match AwsProvider::new(&config) {
                Ok(p) => Ok(Discovery { provider: ProviderSettings::Aws(p) }),
                Err(e) => Err(e),
            }
        } else if name == String::from_str("upcloud") {
            match UpcloudProvider::new(&config) {
                Ok(p) => Ok(Discovery { provider: ProviderSettings::Upcloud(p) }),
                Err(e) => Err(e),
            }
        } else {
            Err(DiscoveryError::UnknownProvider(name))
        }
    }

    /// The provider and its settings.
    pub fn provider(&self) -> (r: &ProviderSettings)
        ensures
            *r == self.settings(),
    {
        &self.provider
    }
}

/// A provider name other than `aws` and `upcloud` is refused as unknown, under its
/// own name, whatever well-formed configuration comes with it.
pub proof fn lemma_unknown_provider(
    name: Seq<char>,
    config: Seq<char>,
    r: Result<Discovery, DiscoveryError>,
)
    requires
        name != "aws"@,
        name != "upcloud"@,
        parse_spec(config) is Ok,
        discovery_result(name, config, r),
    ensures
        r is Err,
        r->Err_0 is UnknownProvider,
        r->Err_0->UnknownProvider_0@ == name,
{
}

/// For `aws`, a well-formed configuration without `region` is a configuration
/// error that names it; it is found before any provider is bound.
pub proof fn lemma_aws_needs_region(config: Seq<char>, r: Result<Discovery, DiscoveryError>)
    requires
        parse_spec(config) is Ok,
        !parse_spec(config)->Ok_0.contains_key("region"@),
        discovery_result("aws"@, config, r),
    ensures
        r is Err,
        is_config_error(r->Err_0, "region is required"@),
{
    reveal_strlit("region");
    reveal_strlit(" is required");
    reveal_strlit("region is required");
    assert("region"@ + " is required"@ =~= "region is required"@);
}

/// Gathers the settings of a `Discovery` one key at a time.
#[derive(Clone, Debug)]
pub struct DiscoveryBuilder {
    provider_name: String,
    config: StringMap,
}

impl DiscoveryBuilder {
    pub closed spec fn name(&self) -> Seq<char> {
        self.provider_name@
    }

    pub closed spec fn settings(&self) -> StringMap {
        self.config
    }

    pub open spec fn wf(&self) -> bool {
        self.settings().wf()
    }

    pub fn new(provider_name: &str) -> (r: DiscoveryBuilder)
        ensures
            r.wf(),
            r.name() == provider_name@,
            r.settings()@ == Map::<Seq<char>, Seq<char>>::empty(),
    {
        DiscoveryBuilder { provider_name: String::from_str(provider_name), config: StringMap::new() }
    }

    /// Sets `key` to `value`, in place of any value it had.
    pub fn with_config(self, key: &str, value: &str) -> (r: DiscoveryBuilder)
        requires
            self.wf(),
        ensures
            r.wf(),
            r.name() == self.name(),
            r.settings()@ == self.settings()@.insert(key@, value@),
    {
        let mut b = self;
        b.config.insert(String::from_str(key), String::from_str(value));
        b
    }

    /// The settings as a configuration string, `key=value` pieces joined by commas.
    pub fn config_to_string(&self) -> (r: String)
        ensures
            r@ == join_pairs(self.settings().pairs()),
    {
        let mut out = String::new();
        let mut i: usize = 0;
        let ghost ps = self.config.pairs();
        while i < self.config.len()
            invariant
                ps == self.config.pairs(),
                i <= ps.len(),
                out@ == join_pairs(ps.take(i as int)),
            decreases ps.len() - i,
        {
            let (k, v) = self.config.entry(i);
            assert(ps.take(i + 1).drop_last() =~= ps.take(i as int));
            if i > 0 {
                out.append(",");
            } else {
                assert(ps.take(1) =~= seq![ps[0]]);
            }
            out.append(k.as_str());
            out.append("=");
            out.append(v.as_str());
            assert(ps.take(i + 1).last() == ps[i as int]);
            i = i + 1;
        }
        assert(ps.take(ps.len() as int) =~= ps);
        out
    }

    /// Binds discovery to the gathered provider name and settings, through
    /// the configuration string that they make.
    pub fn build(self) -> (r: Result<Discovery, DiscoveryError>)
        ensures
            discovery_result(self.name(), join_pairs(self.settings().pairs()), r),
    {
        let text = self.config_to_string();
        Discovery::new(self.provider_name.as_str(), text.as_str())
    }
}

} // verus!

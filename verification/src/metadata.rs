//! Codec metadata: a name and an optional configuration.

use vstd::prelude::*;

verus! {

/// A metadata configuration: an ordered map from keys to JSON-encoded values.
pub struct MetadataConfiguration {
    /// The entries, as key and JSON text of the value.
    pub entries: Vec<(String, String)>,
}

impl View for MetadataConfiguration {
    type V = Seq<(Seq<char>, Seq<char>)>;

    open spec fn view(&self) -> Seq<(Seq<char>, Seq<char>)> {
        self.entries@.map_values(|entry: (String, String)| (entry.0@, entry.1@))
    }
}

impl MetadataConfiguration {
    /// No key occurs twice, as in the JSON object the configuration stands for.
    pub open spec fn well_formed(&self) -> bool {
        forall|i: int, j: int| 0 <= i < j < self@.len() ==> #[trigger] self@[i].0 != #[trigger] self@[j].0
    }

    /// An empty configuration.
    pub fn new() -> (configuration: Self)
        ensures
            configuration@ == Seq::<(Seq<char>, Seq<char>)>::empty(),
            configuration.well_formed(),
    {
        let configuration = MetadataConfiguration { entries: Vec::new() };
        assert(configuration@ =~= Seq::<(Seq<char>, Seq<char>)>::empty());
        configuration
    }

    /// Return whether the configuration has no entries.
    pub fn is_empty(&self) -> (empty: bool)
        ensures
            empty == (self@.len() == 0),
    {
        self.entries.len() == 0
    }

    /// Return a copy of the configuration.
    pub fn duplicate(&self) -> (copy: Self)
        ensures
            copy@ == self@,
            copy.well_formed() == self.well_formed(),
    {
        let n = self.entries.len();
        let mut entries: Vec<(String, String)> = Vec::with_capacity(n);
        let mut i: usize = 0;
        while i < n
            invariant
                n == self.entries@.len(),
                i <= n,
                entries@.len() == i,
                forall|j: int|
                    0 <= j < i ==> #[trigger] entries@[j].0@ == self.entries@[j].0@
                        && entries@[j].1@ == self.entries@[j].1@,
            decreases n - i,
        {
            let entry = &self.entries[i];
            entries.push((entry.0.clone(), entry.1.clone()));
            i = i + 1;
        }
        let copy = MetadataConfiguration { entries };
        assert(copy@ =~= self@);
        copy
    }
}

/// Metadata of a codec or other plugin: a name and an optional configuration.
pub struct Metadata {
    /// The name.
    pub name: String,
    /// The configuration, if any.
    pub configuration: Option<MetadataConfiguration>,
}

impl View for Metadata {
    type V = (Seq<char>, Option<Seq<(Seq<char>, Seq<char>)>>);

    open spec fn view(&self) -> (Seq<char>, Option<Seq<(Seq<char>, Seq<char>)>>) {
        (self.name@, configuration_view(self.configuration))
    }
}

/// The view of an optional configuration.
pub open spec fn configuration_view(configuration: Option<MetadataConfiguration>) -> Option<
    Seq<(Seq<char>, Seq<char>)>,
> {
    match configuration {
        Some(configuration) => Some(configuration@),
        None => None,
    }
}

impl Metadata {
    /// The configuration is missing or has no entries.
    pub open spec fn none_or_empty(&self) -> bool {
        match self.configuration {
            None => true,
            Some(configuration) => configuration@.len() == 0,
        }
    }

    /// Return true if the configuration is `None` or empty.
    pub fn configuration_is_none_or_empty(&self) -> (none_or_empty: bool)
        ensures
            none_or_empty == self.none_or_empty(),
    {
        match &self.configuration {
            None => true,
            Some(configuration) => configuration.is_empty(),
        }
    }

    /// Return a copy of the configuration, if any.
    pub fn configuration_copy(&self) -> (copy: Option<MetadataConfiguration>)
        ensures
            configuration_view(copy) == configuration_view(self.configuration),
    {
        match &self.configuration {
            None => None,
            Some(configuration) => Some(configuration.duplicate()),
        }
    }
}

/// A configuration is invalid.
pub struct ConfigurationInvalidError {
    /// The name of the plugin.
    pub name: String,
    /// The configuration that was rejected.
    pub configuration: Option<MetadataConfiguration>,
}

impl ConfigurationInvalidError {
    /// Create a new invalid configuration error.
    pub fn new(name: &str, configuration: Option<MetadataConfiguration>) -> (error: Self)
        ensures
            error.name@ == name@,
            configuration_view(error.configuration) == configuration_view(configuration),
    {
        ConfigurationInvalidError { name: name.to_owned(), configuration }
    }
}

} // verus!

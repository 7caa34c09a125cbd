//! The eight configurations of Intel MKL and their names.
//!
//! A configuration is a choice on three axes: how the library is linked, how
//! wide its integers are, and how it runs in parallel. Its name is the family
//! tag followed by one word per axis, joined by dashes, such as
//! `mkl-static-lp64-seq`.

use crate::text::{chars_of, is_word, split, split_chars, views};
use vstd::prelude::*;

verus! {

/// Why a string is not the name of a configuration.
#[derive(Debug, Clone, Copy, PartialEq, Eq, Structural)]
pub enum FormatError {
    /// The name does not consist of four dash-separated words.
    Shape,
    /// The first word is not the family tag `mkl`.
    Family,
    /// The second word names no way of linking.
    Link,
    /// The third word names no data model.
    Index,
    /// The fourth word names no threading variant.
    Parallel,
}

impl FormatError {
    /// A sentence for the user, like the ones the command line prints.
    pub fn message(&self) -> (s: String)
        ensures
            s@ == match *self {
                FormatError::Shape => "Invalid name"@,
                FormatError::Family => "Name must start with 'mkl'"@,
                FormatError::Link => "Invalid link spec"@,
                FormatError::Index => "Invalid index spec"@,
                FormatError::Parallel => "Invalid parallel spec"@,
            },
    {
        match self {
            FormatError::Shape => "Invalid name".to_owned(),
            FormatError::Family => "Name must start with 'mkl'".to_owned(),
            FormatError::Link => "Invalid link spec".to_owned(),
            FormatError::Index => "Invalid index spec".to_owned(),
            FormatError::Parallel => "Invalid parallel spec".to_owned(),
        }
    }
}

/// How to link MKL.
#[derive(Debug, Clone, Copy, PartialEq, Eq, Structural)]
pub enum LinkType {
    Static,
    Dynamic,
}

impl LinkType {
    /// The word for this way of linking.
    pub open spec fn name(self) -> Seq<char> {
        match self {
            LinkType::Static => "static"@,
            LinkType::Dynamic => "dynamic"@,
        }
    }

    /// What a word means on this axis.
    pub open spec fn parse(word: Seq<char>) -> Result<LinkType, FormatError> {
        if word == "static"@ {
            Ok(LinkType::Static)
        } else if word == "dynamic"@ {
            Ok(LinkType::Dynamic)
        } else {
            Err(FormatError::Link)
        }
    }

    pub fn as_str(&self) -> (s: &'static str)
        ensures
            s@ == self.name(),
    {
        match self {
            LinkType::Static => "static",
            LinkType::Dynamic => "dynamic",
        }
    }

    pub fn to_string(&self) -> (s: String)
        ensures
            s@ == self.name(),
    {
        self.as_str().to_owned()
    }

    pub fn from_str(input: &str) -> (r: Result<LinkType, FormatError>)
        ensures
            r == LinkType::parse(input@),
    {
        let word = chars_of(input);
        LinkType::from_chars(word.as_slice())
    }

    pub(crate) fn from_chars(word: &[char]) -> (r: Result<LinkType, FormatError>)
        ensures
            r == LinkType::parse(word@),
    {
        if is_word(word, "static") {
            Ok(LinkType::Static)
        } else if is_word(word, "dynamic") {
            Ok(LinkType::Dynamic)
        } else {
            Err(FormatError::Link)
        }
    }
}

impl Default for LinkType {
    fn default() -> (r: LinkType)
        ensures
            r == LinkType::Static,
    {
        LinkType::Static
    }
}

/// Data model of the library.
///
/// The array indices of some MKL interfaces are C `int`s, whose size is not
/// fixed.
#[derive(Debug, Clone, Copy, PartialEq, Eq, Structural)]
pub enum DataModel {
    /// `long` and pointers are 64 bits wide, `int` is 32.
    LP64,
    /// `int`, `long` and pointers are all 64 bits wide.
    ILP64,
}

impl DataModel {
    /// The word for this data model.
    pub open spec fn name(self) -> Seq<char> {
        match self {
            DataModel::LP64 => "lp64"@,
            DataModel::ILP64 => "ilp64"@,
        }
    }

    /// What a word means on this axis.
    pub open spec fn parse(word: Seq<char>) -> Result<DataModel, FormatError> {
        if word == "lp64"@ {
            Ok(DataModel::LP64)
        } else if word == "ilp64"@ {
            Ok(DataModel::ILP64)
        } else {
            Err(FormatError::Index)
        }
    }

    pub fn as_str(&self) -> (s: &'static str)
        ensures
            s@ == self.name(),
    {
        match self {
            DataModel::LP64 => "lp64",
            DataModel::ILP64 => "ilp64",
        }
    }

    pub fn to_string(&self) -> (s: String)
        ensures
            s@ == self.name(),
    {
        self.as_str().to_owned()
    }

    pub fn from_str(input: &str) -> (r: Result<DataModel, FormatError>)
        ensures
            r == DataModel::parse(input@),
    {
        let word = chars_of(input);
        DataModel::from_chars(word.as_slice())
    }

    pub(crate) fn from_chars(word: &[char]) -> (r: Result<DataModel, FormatError>)
        ensures
            r == DataModel::parse(word@),
    {
        if is_word(word, "lp64") {
            Ok(DataModel::LP64)
        } else if is_word(word, "ilp64") {
            Ok(DataModel::ILP64)
        } else {
            Err(FormatError::Index)
        }
    }
}

impl Default for DataModel {
    fn default() -> (r: DataModel)
        ensures
            r == DataModel::ILP64,
    {
        DataModel::ILP64
    }
}

/// How MKL manages threads.
#[derive(Debug, Clone, Copy, PartialEq, Eq, Structural)]
pub enum Threading {
    /// Use iomp5, the Intel OpenMP runtime.
    OpenMP,
    /// No OpenMP runtime.
    Sequential,
}

impl Threading {
    /// The word for this threading variant.
    pub open spec fn name(self) -> Seq<char> {
        match self {
            Threading::OpenMP => "iomp"@,
            Threading::Sequential => "seq"@,
        }
    }

    /// What a word means on this axis.
    pub open spec fn parse(word: Seq<char>) -> Result<Threading, FormatError> {
        if word == "iomp"@ {
            Ok(Threading::OpenMP)
        } else if word == "seq"@ {
            Ok(Threading::Sequential)
        } else {
            Err(FormatError::Parallel)
        }
    }

    pub fn as_str(&self) -> (s: &'static str)
        ensures
            s@ == self.name(),
    {
        match self {
            Threading::OpenMP => "iomp",
            Threading::Sequential => "seq",
        }
    }

    pub fn to_string(&self) -> (s: String)
        ensures
            s@ == self.name(),
    {
        self.as_str().to_owned()
    }

    pub fn from_str(input: &str) -> (r: Result<Threading, FormatError>)
        ensures
            r == Threading::parse(input@),
    {
        let word = chars_of(input);
        Threading::from_chars(word.as_slice())
    }

    pub(crate) fn from_chars(word: &[char]) -> (r: Result<Threading, FormatError>)
        ensures
            r == Threading::parse(word@),
    {
        if is_word(word, "iomp") {
            Ok(Threading::OpenMP)
        } else if is_word(word, "seq") {
            Ok(Threading::Sequential)
        } else {
            Err(FormatError::Parallel)
        }
    }
}

impl Default for Threading {
    fn default() -> (r: Threading)
        ensures
            r == Threading::Sequential,
    {
        Threading::Sequential
    }
}

/// Configuration for Intel MKL, e.g. `mkl-static-lp64-seq`.
///
/// There are 2x2x2 = 8 combinations of [LinkType], [DataModel] and
/// [Threading].
#[derive(Debug, Clone, Copy, PartialEq, Eq, Structural)]
pub struct Config {
    pub link: LinkType,
    pub index_size: DataModel,
    pub parallel: Threading,
}

/// The single delimiter of a configuration name.
pub open spec fn dash() -> Seq<char> {
    seq!['-']
}

impl Config {
    /// The canonical name of this configuration.
    pub open spec fn name(self) -> Seq<char> {
        "mkl"@ + dash() + self.link.name() + dash() + self.index_size.name() + dash()
            + self.parallel.name()
    }

    /// What a string means as a configuration name: four words between
    /// dashes, the family tag first, then one word per axis. The first thing
    /// found wrong, in that order, is the error.
    pub open spec fn parse(name: Seq<char>) -> Result<Config, FormatError> {
        let words = split(name, dash());
        if words.len() != 4 {
            Err(FormatError::Shape)
        } else if words[0] != "mkl"@ {
            Err(FormatError::Family)
        } else {
            match LinkType::parse(words[1]) {
                Err(e) => Err(e),
                Ok(link) => match DataModel::parse(words[2]) {
                    Err(e) => Err(e),
                    Ok(index_size) => match Threading::parse(words[3]) {
                        Err(e) => Err(e),
                        Ok(parallel) => Ok(Config { link, index_size, parallel }),
                    },
                },
            }
        }
    }

    pub fn to_string(&self) -> (s: String)
        ensures
            s@ == self.name(),
    {
        let mut s = "mkl".to_owned();
        s.append("-");
        s.append(self.link.as_str());
        s.append("-");
        s.append(self.index_size.as_str());
        s.append("-");
        s.append(self.parallel.as_str());
        proof {
            reveal_strlit("-");
            assert("-"@ =~= dash());
        }
        s
    }

    pub fn from_str(name: &str) -> (r: Result<Config, FormatError>)
        ensures
            r == Config::parse(name@),
    {
        let text = chars_of(name);
        let delims: Vec<char> = vec!['-'];
        assert(delims@ =~= dash());
        let words = split_chars(text.as_slice(), delims.as_slice());
        assert(views(words@).len() == words@.len());
        if words.len() != 4 {
            return Err(FormatError::Shape);
        }
        assert(views(words@)[0] == words@[0]@);
        assert(views(words@)[1] == words@[1]@);
        assert(views(words@)[2] == words@[2]@);
        assert(views(words@)[3] == words@[3]@);
        if !is_word(words[0].as_slice(), "mkl") {
            return Err(FormatError::Family);
        }
        let link = match LinkType::from_chars(words[1].as_slice()) {
            Ok(link) => link,
            Err(e) => {
                return Err(e);
            },
        };
        let index_size = match DataModel::from_chars(words[2].as_slice()) {
            Ok(index_size) => index_size,
            Err(e) => {
                return Err(e);
            },
        };
        let parallel = match Threading::from_chars(words[3].as_slice()) {
            Ok(parallel) => parallel,
            Err(e) => {
                return Err(e);
            },
        };
        Ok(Config { link, index_size, parallel })
    }
}

impl Default for Config {
    fn default() -> (r: Config)
        ensures
            r == (Config {
                link: LinkType::Static,
                index_size: DataModel::ILP64,
                parallel: Threading::Sequential,
            }),
    {
        Config {
            link: LinkType::Static,
            index_size: DataModel::ILP64,
            parallel: Threading::Sequential,
        }
    }
}

/// The names of all configurations, in alphabetical order.
pub const VALID_CONFIGS: [&'static str; 8] = [
    "mkl-dynamic-ilp64-iomp",
    "mkl-dynamic-ilp64-seq",
    "mkl-dynamic-lp64-iomp",
    "mkl-dynamic-lp64-seq",
    "mkl-static-ilp64-iomp",
    "mkl-static-ilp64-seq",
    "mkl-static-lp64-iomp",
    "mkl-static-lp64-seq",
];

/// All configurations, in the alphabetical order of their names.
pub open spec fn all_configs() -> Seq<Config> {
    seq![
        config_of(LinkType::Dynamic, DataModel::ILP64, Threading::OpenMP),
        config_of(LinkType::Dynamic, DataModel::ILP64, Threading::Sequential),
        config_of(LinkType::Dynamic, DataModel::LP64, Threading::OpenMP),
        config_of(LinkType::Dynamic, DataModel::LP64, Threading::Sequential),
        config_of(LinkType::Static, DataModel::ILP64, Threading::OpenMP),
        config_of(LinkType::Static, DataModel::ILP64, Threading::Sequential),
        config_of(LinkType::Static, DataModel::LP64, Threading::OpenMP),
        config_of(LinkType::Static, DataModel::LP64, Threading::Sequential),
    ]
}

/// The configuration of one choice on each axis.
pub open spec fn config_of(link: LinkType, index_size: DataModel, parallel: Threading) -> Config {
    Config { link, index_size, parallel }
}

impl Config {
    /// Every configuration, once each.
    pub fn possibles() -> (all: Vec<Config>)
        ensures
            all@ == all_configs(),
    {
        let links = [LinkType::Dynamic, LinkType::Static];
        let sizes = [DataModel::ILP64, DataModel::LP64];
        let threads = [Threading::OpenMP, Threading::Sequential];
        let mut all: Vec<Config> = Vec::new();
        let mut i: usize = 0;
        while i < 8
            invariant
                i <= 8,
                all@ == all_configs().take(i as int),
                links@ == seq![LinkType::Dynamic, LinkType::Static],
                sizes@ == seq![DataModel::ILP64, DataModel::LP64],
                threads@ == seq![Threading::OpenMP, Threading::Sequential],
            decreases 8 - i,
        {
            let config = Config {
                link: links[i / 4],
                index_size: sizes[(i / 2) % 2],
                parallel: threads[i % 2],
            };
            all.push(config);
            assert(all@ =~= all_configs().take(i + 1));
            i = i + 1;
        }
        assert(all@ =~= all_configs());
        all
    }
}

/// No word of a configuration name holds a dash.
proof fn lemma_words_without_dash(c: Config)
    ensures
        crate::text::free_of("mkl"@, dash()),
        crate::text::free_of(c.link.name(), dash()),
        crate::text::free_of(c.index_size.name(), dash()),
        crate::text::free_of(c.parallel.name(), dash()),
{
    reveal_strlit("mkl");
    reveal_strlit("static");
    reveal_strlit("dynamic");
    reveal_strlit("lp64");
    reveal_strlit("ilp64");
    reveal_strlit("iomp");
    reveal_strlit("seq");
}

/// The words of the two values of an axis differ, and each means its value.
proof fn lemma_words_parse(c: Config)
    ensures
        LinkType::parse(c.link.name()) == Ok::<LinkType, FormatError>(c.link),
        DataModel::parse(c.index_size.name()) == Ok::<DataModel, FormatError>(c.index_size),
        Threading::parse(c.parallel.name()) == Ok::<Threading, FormatError>(c.parallel),
{
    reveal_strlit("static");
    reveal_strlit("dynamic");
    reveal_strlit("lp64");
    reveal_strlit("ilp64");
    reveal_strlit("iomp");
    reveal_strlit("seq");
    assert("static"@.len() != "dynamic"@.len());
    assert("lp64"@.len() != "ilp64"@.len());
    assert("iomp"@.len() != "seq"@.len());
}

/// The words between the dashes of a configuration's name are the family tag
/// and the words of its three axes.
pub proof fn lemma_name_words(c: Config)
    ensures
        split(c.name(), dash()) == seq![
            "mkl"@,
            c.link.name(),
            c.index_size.name(),
            c.parallel.name(),
        ],
{
    lemma_words_without_dash(c);
    let d = dash();
    assert(d[0] == '-');
    assert(d.contains('-'));
    let t3 = c.parallel.name();
    let t2 = c.index_size.name() + d + t3;
    let t1 = c.link.name() + d + t2;
    crate::text::lemma_split_whole(t3, d);
    crate::text::lemma_split_first(c.index_size.name(), '-', t3, d);
    assert(c.index_size.name() + seq!['-'] + t3 =~= t2);
    crate::text::lemma_split_first(c.link.name(), '-', t2, d);
    assert(c.link.name() + seq!['-'] + t2 =~= t1);
    crate::text::lemma_split_first("mkl"@, '-', t1, d);
    assert("mkl"@ + seq!['-'] + t1 =~= c.name());
    assert(seq!["mkl"@] + (seq![c.link.name()] + (seq![c.index_size.name()] + seq![t3])) =~= seq![
        "mkl"@,
        c.link.name(),
        c.index_size.name(),
        c.parallel.name(),
    ]);
}

/// Writing a configuration and reading the name back gives the same
/// configuration.
pub proof fn lemma_name_parses(c: Config)
    ensures
        Config::parse(c.name()) == Ok::<Config, FormatError>(c),
{
    lemma_name_words(c);
    lemma_words_parse(c);
}

/// Only its own name is read as a configuration.
pub proof fn lemma_parsed_is_named(name: Seq<char>)
    ensures
        Config::parse(name) matches Ok(c) ==> name == c.name(),
{
    if let Ok(c) = Config::parse(name) {
        let words = split(name, dash());
        crate::text::lemma_join_split(name, '-');
        let d = dash();
        assert(words.drop_first().drop_first().drop_first() =~= seq![words[3]]);
        assert(words.drop_first().drop_first() =~= seq![words[2], words[3]]);
        assert(words.drop_first() =~= seq![words[1], words[2], words[3]]);
        assert(crate::text::join(seq![words[3]], d) == words[3]);
        assert(crate::text::join(seq![words[2], words[3]], d) == words[2] + d + words[3]) by {
            assert(seq![words[2], words[3]].drop_first() =~= seq![words[3]]);
        }
        assert(crate::text::join(seq![words[1], words[2], words[3]], d) == words[1] + d + (words[2]
            + d + words[3])) by {
            assert(seq![words[1], words[2], words[3]].drop_first() =~= seq![words[2], words[3]]);
        }
        assert(name =~= c.name());
    }
}

/// A string is read as a configuration exactly when it is the name of one.
pub proof fn lemma_parse_accepts_names(name: Seq<char>)
    ensures
        Config::parse(name) is Ok <==> exists|c: Config| name == #[trigger] c.name(),
{
    lemma_parsed_is_named(name);
    if let Ok(c) = Config::parse(name) {
        assert(name == c.name());
    }
    if exists|c: Config| name == #[trigger] c.name() {
        let c = choose|c: Config| name == #[trigger] c.name();
        lemma_name_parses(c);
    }
}

/// Reading a name, writing the configuration and reading that again changes
/// nothing: the second reading agrees with the first.
pub proof fn lemma_round_trip(name: Seq<char>)
    ensures
        Config::parse(name) matches Ok(c) ==> Config::parse(c.name()) == Config::parse(name),
{
    if let Ok(c) = Config::parse(name) {
        lemma_name_parses(c);
    }
}

/// Different configurations have different names.
pub proof fn lemma_names_differ(a: Config, b: Config)
    ensures
        a.name() == b.name() ==> a == b,
{
    lemma_name_parses(a);
    lemma_name_parses(b);
}

/// The list of all configurations leaves none out and repeats none, and the
/// list of valid names holds their names in the same order.
pub proof fn lemma_all_configs()
    ensures
        all_configs().len() == 8,
        forall|c: Config| all_configs().contains(c),
        forall|i: int, j: int| 0 <= i < j < 8 ==> all_configs()[i] != all_configs()[j],
        forall|i: int| 0 <= i < 8 ==> (#[trigger] VALID_CONFIGS[i])@ == all_configs()[i].name(),
{
    assert forall|c: Config| all_configs().contains(c) by {
        let i: int = (if c.link == LinkType::Dynamic { 0int } else { 4int })
            + (if c.index_size == DataModel::ILP64 { 0int } else { 2int })
            + (if c.parallel == Threading::OpenMP { 0int } else { 1int });
        assert(all_configs()[i] == c);
    }
    reveal_strlit("mkl");
    reveal_strlit("static");
    reveal_strlit("dynamic");
    reveal_strlit("lp64");
    reveal_strlit("ilp64");
    reveal_strlit("iomp");
    reveal_strlit("seq");
    reveal_strlit("mkl-dynamic-ilp64-iomp");
    reveal_strlit("mkl-dynamic-ilp64-seq");
    reveal_strlit("mkl-dynamic-lp64-iomp");
    reveal_strlit("mkl-dynamic-lp64-seq");
    reveal_strlit("mkl-static-ilp64-iomp");
    reveal_strlit("mkl-static-ilp64-seq");
    reveal_strlit("mkl-static-lp64-iomp");
    reveal_strlit("mkl-static-lp64-seq");
    assert(VALID_CONFIGS[0]@ =~= all_configs()[0].name());
    assert(VALID_CONFIGS[1]@ =~= all_configs()[1].name());
    assert(VALID_CONFIGS[2]@ =~= all_configs()[2].name());
    assert(VALID_CONFIGS[3]@ =~= all_configs()[3].name());
    assert(VALID_CONFIGS[4]@ =~= all_configs()[4].name());
    assert(VALID_CONFIGS[5]@ =~= all_configs()[5].name());
    assert(VALID_CONFIGS[6]@ =~= all_configs()[6].name());
    assert(VALID_CONFIGS[7]@ =~= all_configs()[7].name());
}

} // verus!

//! The settings of one run, read from the command line's words.

use vstd::prelude::*;
use crate::decimal::{decimal, parse_decimal, DigitFault};

verus! {

/// The output length where `-l` is not given.
pub const DEFAULT_PWLEN: usize = 10;

/// The longest output: the length of an encoded digest.
pub const MAX_PWLEN: usize = 24;

/// The settings of one run.
#[derive(Debug)]
pub struct Mkpw {
    domain: String,
    confirmation: bool,
    urlsafe: bool,
    pwlen: usize,
}

/// What a `Mkpw` holds.
pub struct Settings {
    pub domain: Seq<char>,
    pub confirmation: bool,
    pub urlsafe: bool,
    pub pwlen: nat,
}

/// Why the words of a command line give no settings.
#[derive(Debug, PartialEq, Eq)]
pub enum ConfigError {
    /// No word names the domain, or the word that does is empty.
    DomainMissing,
    /// `-l` is the last word.
    LengthMissing,
    /// The word after `-l` is not a number.
    LengthMalformed(String, DigitFault),
    /// The length is 0 or more than `MAX_PWLEN`.
    LengthOutOfRange(usize),
}

/// What a `ConfigError` holds.
pub enum ConfigFault {
    DomainMissing,
    LengthMissing,
    LengthMalformed(Seq<char>, DigitFault),
    LengthOutOfRange(nat),
}

impl View for ConfigError {
    type V = ConfigFault;

    open spec fn view(&self) -> ConfigFault {
        match *self {
            ConfigError::DomainMissing => ConfigFault::DomainMissing,
            ConfigError::LengthMissing => ConfigFault::LengthMissing,
            ConfigError::LengthMalformed(text, fault) => ConfigFault::LengthMalformed(text@, fault),
            ConfigError::LengthOutOfRange(n) => ConfigFault::LengthOutOfRange(n as nat),
        }
    }
}

impl ConfigFault {
    /// The error in words, for the user.
    pub open spec fn words(self) -> Seq<char> {
        match self {
            ConfigFault::DomainMissing => "Domain missing!"@,
            ConfigFault::LengthMissing => "Option -l requires a length parameter!"@,
            ConfigFault::LengthMalformed(text, fault) => "Failed to parse parameter '"@ + text
                + "' to option -l as integer value: "@ + fault.words(),
            ConfigFault::LengthOutOfRange(_) => "Option -l requires a length from 1 to 24!"@,
        }
    }
}

impl ConfigError {
    /// The error in words, for the user.
    pub fn message(&self) -> (words: String)
        ensures
            words@ == self@.words(),
    {
        match self {
            ConfigError::DomainMissing => String::from_str("Domain missing!"),
            ConfigError::LengthMissing => String::from_str("Option -l requires a length parameter!"),
            ConfigError::LengthMalformed(text, fault) => {
                let mut words = String::from_str("Failed to parse parameter '");
                words.append(text.as_str());
                words.append("' to option -l as integer value: ");
                words.append(fault.describe());
                words
            },
            ConfigError::LengthOutOfRange(_) => String::from_str(
                "Option -l requires a length from 1 to 24!",
            ),
        }
    }
}

/// What has been gathered from the words read so far.
pub struct Scan {
    pub domain: Option<Seq<char>>,
    pub confirmation: bool,
    pub urlsafe: bool,
    pub length: Result<nat, ConfigFault>,
}

/// Before any word is read: no domain, confirmation asked for, the standard
/// alphabet, the default length.
pub open spec fn defaults() -> Scan {
    Scan { domain: None, confirmation: true, urlsafe: false, length: Ok(DEFAULT_PWLEN as nat) }
}

/// The length that the word after `-l` gives.
pub open spec fn length_from(word: Seq<char>) -> Result<nat, ConfigFault> {
    match decimal(word) {
        Ok(n) => Ok(n),
        Err(fault) => Err(ConfigFault::LengthMalformed(word, fault)),
    }
}

/// Reads the words from position `at` on. `-n` switches confirmation off, `-a`
/// chooses the URL-safe alphabet, `-l` takes the next word as the length, and
/// any other word is the domain. Of several domains or lengths the last stands.
pub open spec fn scan_from(words: Seq<Seq<char>>, at: int, so_far: Scan) -> Scan
    decreases words.len() - at,
{
    if at < 0 || at >= words.len() {
        so_far
    } else if words[at] == "-n"@ {
        scan_from(words, at + 1, Scan { confirmation: false, ..so_far })
    } else if words[at] == "-a"@ {
        scan_from(words, at + 1, Scan { urlsafe: true, ..so_far })
    } else if words[at] == "-l"@ {
        if at + 1 >= words.len() {
            Scan { length: Err(ConfigFault::LengthMissing), ..so_far }
        } else {
            scan_from(words, at + 2, Scan { length: length_from(words[at + 1]), ..so_far })
        }
    } else {
        scan_from(words, at + 1, Scan { domain: Some(words[at]), ..so_far })
    }
}

/// The settings that a finished scan gives. A missing domain is reported before
/// a fault of the length.
pub open spec fn settled(scan: Scan) -> Result<Settings, ConfigFault> {
    match scan.domain {
        None => Err(ConfigFault::DomainMissing),
        Some(domain) => if domain.len() == 0 {
            Err(ConfigFault::DomainMissing)
        } else {
            match scan.length {
                Err(fault) => Err(fault),
                Ok(n) => if 1 <= n <= MAX_PWLEN {
                    Ok(
                        Settings {
                            domain,
                            confirmation: scan.confirmation,
                            urlsafe: scan.urlsafe,
                            pwlen: n,
                        },
                    )
                } else {
                    Err(ConfigFault::LengthOutOfRange(n))
                },
            }
        },
    }
}

/// The settings that a command line gives. Its first word, the program's name,
/// is passed over.
pub open spec fn configured(words: Seq<Seq<char>>) -> Result<Settings, ConfigFault> {
    settled(scan_from(words, 1, defaults()))
}

/// Settings that a command line gives name a domain and a length that the
/// text of a digest has.
pub proof fn lemma_settings_are_valid(words: Seq<Seq<char>>)
    requires
        configured(words) is Ok,
    ensures
        configured(words)->Ok_0.domain.len() > 0,
        1 <= configured(words)->Ok_0.pwlen <= MAX_PWLEN,
{
}

/// Once a domain is named, a length that was read is accepted exactly where
/// it lies between 1 and `MAX_PWLEN`: the full length of an encoded digest
/// passes, and one character more is refused.
pub proof fn lemma_length_bounds(scan: Scan, n: nat)
    requires
        scan.domain is Some,
        scan.domain->Some_0.len() > 0,
        scan.length == Ok::<nat, ConfigFault>(n),
    ensures
        settled(scan) is Ok <==> 1 <= n <= MAX_PWLEN,
        settled(scan) is Ok ==> settled(scan)->Ok_0.pwlen == n,
        !(1 <= n <= MAX_PWLEN) ==> settled(scan) == Err::<Settings, ConfigFault>(
            ConfigFault::LengthOutOfRange(n),
        ),
        n == MAX_PWLEN ==> settled(scan) is Ok,
        n == MAX_PWLEN + 1 ==> settled(scan) is Err,
{
}

/// The words as sequences of characters.
pub open spec fn texts(args: Seq<String>) -> Seq<Seq<char>> {
    args.map_values(|word: String| word@)
}

/// The view of a length that is known or faulty.
pub open spec fn length_view(length: Result<usize, ConfigError>) -> Result<nat, ConfigFault> {
    match length {
        Ok(n) => Ok(n as nat),
        Err(e) => Err(e@),
    }
}

fn is_word(arg: &String, word: &str) -> (same: bool)
    ensures
        same == (arg@ == word@),
{
    let word = word.to_owned();
    *arg == word
}

impl View for Mkpw {
    type V = Settings;

    closed spec fn view(&self) -> Settings {
        Settings {
            domain: self.domain@,
            confirmation: self.confirmation,
            urlsafe: self.urlsafe,
            pwlen: self.pwlen as nat,
        }
    }
}

impl Mkpw {
    #[verifier::type_invariant]
    spec fn valid(&self) -> bool {
        &&& self.domain@.len() > 0
        &&& 1 <= self.pwlen <= MAX_PWLEN
    }

    /// Reads the settings from the words of a command line, the program's name first.
    pub fn new(args: Vec<String>) -> (r: Result<Mkpw, ConfigError>)
        ensures
            match r {
                Ok(mkpw) => configured(texts(args@)) == Ok::<Settings, ConfigFault>(mkpw@),
                Err(e) => configured(texts(args@)) == Err::<Settings, ConfigFault>(e@),
            },
    {
        let mut domain: Option<String> = None;
        let mut confirmation = true;
        let mut urlsafe = false;
        let mut length: Result<usize, ConfigError> = Ok(DEFAULT_PWLEN);
        let mut at: usize = 1;
        while at < args.len()
            invariant
                1 <= at,
                scan_from(texts(args@), 1, defaults()) == scan_from(
                    texts(args@),
                    at as int,
                    Scan {
                        domain: match domain {
                            Some(d) => Some(d@),
                            None => None,
                        },
                        confirmation,
                        urlsafe,
                        length: length_view(length),
                    },
                ),
            decreases args.len() + 2 - at,
        {
            let arg = &args[at];
            assert(texts(args@)[at as int] == arg@);
            if is_word(arg, "-n") {
                confirmation = false;
                at = at + 1;
            } else if is_word(arg, "-a") {
                urlsafe = true;
                at = at + 1;
            } else if is_word(arg, "-l") {
                if at + 1 >= args.len() {
                    length = Err(ConfigError::LengthMissing);
                    at = args.len();
                } else {
                    let word = &args[at + 1];
                    assert(texts(args@)[at + 1] == word@);
                    length = match parse_decimal(word.as_str()) {
                        Ok(n) => Ok(n),
                        Err(fault) => Err(ConfigError::LengthMalformed(word.clone(), fault)),
                    };
                    at = at + 2;
                }
            } else {
                domain = Some(arg.clone());
                at = at + 1;
            }
        }
        match domain {
            None => Err(ConfigError::DomainMissing),
            Some(domain) => {
                if domain.as_str().is_empty() {
                    Err(ConfigError::DomainMissing)
                } else {
                    match length {
                        Err(e) => Err(e),
                        Ok(pwlen) => {
                            if 1 <= pwlen && pwlen <= MAX_PWLEN {
                                Ok(Mkpw { domain, confirmation, urlsafe, pwlen })
                            } else {
                                Err(ConfigError::LengthOutOfRange(pwlen))
                            }
                        },
                    }
                }
            },
        }
    }

    /// The domain that the password is for. It is never empty.
    pub fn domain(&self) -> (domain: &str)
        ensures
            domain@ == self@.domain,
            domain@.len() > 0,
    {
        proof {
            use_type_invariant(self);
        }
        self.domain.as_str()
    }

    /// Whether the passphrase is asked for a second time.
    pub fn confirmation(&self) -> (confirmation: bool)
        ensures
            confirmation == self@.confirmation,
    {
        self.confirmation
    }

    /// Whether the password is written in the URL-safe alphabet.
    pub fn urlsafe(&self) -> (urlsafe: bool)
        ensures
            urlsafe == self@.urlsafe,
    {
        self.urlsafe
    }

    /// The number of characters of the password.
    pub fn pwlen(&self) -> (pwlen: usize)
        ensures
            pwlen == self@.pwlen,
            1 <= pwlen <= MAX_PWLEN,
    {
        proof {
            use_type_invariant(self);
        }
        self.pwlen
    }
}

} // verus!

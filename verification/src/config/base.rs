//! The attribute as a whole.

use vstd::prelude::*;
use crate::config::item::{ConfigItem, ItemView};
use crate::config::iterator::{item_at, lemma_first_comma, ConfigIterator};
use crate::config::set::TokenSet;
use crate::errors::Error;
use crate::token::{
    ident_view, lemma_views, lemma_views_empty, path_sep, push_path_sep, push_token, text_is,
    views, Delimiter, Span, Stream, Token, TokenView,
};
use crate::utils::{err, err_view};

verus! {

/// What the attribute of a test says.
#[derive(Debug, PartialEq, Eq)]
pub struct Config {
    pub test_fn: Option<Vec<Token>>,
    pub skip_fn: Option<Vec<Token>>,
    pub skip_result: Option<Vec<Token>>,
    pub timeout: Option<Vec<Token>>,
    pub uses: TokenSet,
    pub consumes: TokenSet,
}

/// A configuration as plain values.
pub struct ConfigView {
    pub test_fn: Option<Stream>,
    pub skip_fn: Option<Stream>,
    pub skip_result: Option<Stream>,
    pub timeout: Option<Stream>,
    pub uses: Seq<Stream>,
    pub consumes: Seq<Stream>,
}

/// The view of an optional token sequence.
pub open spec fn opt_views(o: Option<Vec<Token>>) -> Option<Stream> {
    match o {
        Some(tokens) => Some(views(tokens@)),
        None => None,
    }
}

impl View for Config {
    type V = ConfigView;

    open spec fn view(&self) -> ConfigView {
        ConfigView {
            test_fn: opt_views(self.test_fn),
            skip_fn: opt_views(self.skip_fn),
            skip_result: opt_views(self.skip_result),
            timeout: opt_views(self.timeout),
            uses: self.uses@,
            consumes: self.consumes@,
        }
    }
}

/// What has been read of an attribute so far.
pub struct Reading {
    pub config: ConfigView,
    pub no_default_uses: bool,
    pub notparallel: bool,
}

/// The expression `etest::ResourceId::Basic`.
pub open spec fn default_uses_view() -> Stream {
    seq![ident_view("etest"@)] + path_sep() + seq![ident_view("ResourceId"@)] + path_sep()
        + seq![ident_view("Basic"@)]
}

/// The message that rejects an unknown key: `unsupported key: "{key}"`.
pub open spec fn unsupported_key(key: Seq<char>) -> Seq<char> {
    "unsupported key: \""@ + key + "\""@
}

/// The tokens that reject the value of `item` for the reason that its
/// conversion gave.
pub open spec fn rejected(item: ItemView, e: Error) -> Stream {
    err_view(Span::Call, item.bad_value(e))
}

impl ConfigView {
    /// Nothing configured.
    pub open spec fn empty() -> ConfigView {
        ConfigView {
            test_fn: None,
            skip_fn: None,
            skip_result: None,
            timeout: None,
            uses: Seq::empty(),
            consumes: Seq::empty(),
        }
    }

    /// The test keeps its test attribute: `test_fn` is not exactly `()`.
    pub open spec fn has_test_fn(self) -> bool {
        match self.test_fn {
            None => true,
            Some(f) => !(f.len() == 1 && (f[0] matches TokenView::Group(delimiter, inner, _)
                && delimiter == Delimiter::Parenthesis && inner.len() == 0)),
        }
    }
}

impl Reading {
    /// Nothing read yet.
    pub open spec fn start() -> Reading {
        Reading { config: ConfigView::empty(), no_default_uses: false, notparallel: false }
    }

    /// The reading after `item`: its key decides which setting it is, a
    /// later item replaces an earlier one of the same key, and an unknown
    /// key or a value of the wrong form is rejected.
    pub open spec fn with(self, item: ItemView) -> Result<Reading, Stream> {
        let c = self.config;
        if item.key == "no_default_uses"@ {
            Ok(Reading { config: c, no_default_uses: true, notparallel: self.notparallel })
        } else if item.key == "test_fn"@ {
            match item.stream() {
                Ok(v) => Ok(
                    Reading {
                        config: ConfigView {
                            test_fn: Some(v),
                            skip_fn: c.skip_fn,
                            skip_result: c.skip_result,
                            timeout: c.timeout,
                            uses: c.uses,
                            consumes: c.consumes,
                        },
                        no_default_uses: self.no_default_uses,
                        notparallel: self.notparallel,
                    },
                ),
                Err(e) => Err(rejected(item, e)),
            }
        } else if item.key == "skip"@ {
            match item.stream() {
                Ok(v) => Ok(
                    Reading {
                        config: ConfigView {
                            test_fn: c.test_fn,
                            skip_fn: Some(v),
                            skip_result: c.skip_result,
                            timeout: c.timeout,
                            uses: c.uses,
                            consumes: c.consumes,
                        },
                        no_default_uses: self.no_default_uses,
                        notparallel: self.notparallel,
                    },
                ),
                Err(e) => Err(rejected(item, e)),
            }
        } else if item.key == "skip_result"@ {
            match item.stream() {
                Ok(v) => Ok(
                    Reading {
                        config: ConfigView {
                            test_fn: c.test_fn,
                            skip_fn: c.skip_fn,
                            skip_result: Some(v),
                            timeout: c.timeout,
                            uses: c.uses,
                            consumes: c.consumes,
                        },
                        no_default_uses: self.no_default_uses,
                        notparallel: self.notparallel,
                    },
                ),
                Err(e) => Err(rejected(item, e)),
            }
        } else if item.key == "timeout"@ {
            match item.stream() {
                Ok(v) => Ok(
                    Reading {
                        config: ConfigView {
                            test_fn: c.test_fn,
                            skip_fn: c.skip_fn,
                            skip_result: c.skip_result,
                            timeout: Some(v),
                            uses: c.uses,
                            consumes: c.consumes,
                        },
                        no_default_uses: self.no_default_uses,
                        notparallel: self.notparallel,
                    },
                ),
                Err(e) => Err(rejected(item, e)),
            }
        } else if item.key == "uses"@ {
            match item.set() {
                Ok(list) => Ok(
                    Reading {
                        config: ConfigView {
                            test_fn: c.test_fn,
                            skip_fn: c.skip_fn,
                            skip_result: c.skip_result,
                            timeout: c.timeout,
                            uses: list,
                            consumes: c.consumes,
                        },
                        no_default_uses: self.no_default_uses,
                        notparallel: self.notparallel,
                    },
                ),
                Err(e) => Err(rejected(item, e)),
            }
        } else if item.key == "consumes"@ {
            match item.set() {
                Ok(list) => Ok(
                    Reading {
                        config: ConfigView {
                            test_fn: c.test_fn,
                            skip_fn: c.skip_fn,
                            skip_result: c.skip_result,
                            timeout: c.timeout,
                            uses: c.uses,
                            consumes: list,
                        },
                        no_default_uses: self.no_default_uses,
                        notparallel: self.notparallel,
                    },
                ),
                Err(e) => Err(rejected(item, e)),
            }
        } else if item.key == "notparallel"@ {
            Ok(Reading { config: c, no_default_uses: self.no_default_uses, notparallel: true })
        } else {
            Err(err_view(Span::Call, unsupported_key(item.key)))
        }
    }

    /// The configuration that the reading amounts to: the basic resource
    /// is added to `uses` unless that was switched off, and to `consumes`
    /// where the test must not run in parallel.
    pub open spec fn finish(self) -> ConfigView {
        let c = self.config;
        ConfigView {
            test_fn: c.test_fn,
            skip_fn: c.skip_fn,
            skip_result: c.skip_result,
            timeout: c.timeout,
            uses: if self.no_default_uses {
                c.uses
            } else {
                c.uses.push(default_uses_view())
            },
            consumes: if self.notparallel {
                c.consumes.push(default_uses_view())
            } else {
                c.consumes
            },
        }
    }
}

/// The reading of the items of `s` from position `pos` on, begun with
/// `acc`; the first item that is rejected ends it.
pub open spec fn read_from(s: Stream, pos: int, acc: Reading) -> Result<Reading, Stream>
    decreases s.len() - pos,
{
    match item_at(s, pos) {
        (None, _) => Ok(acc),
        (Some(Err(e)), _) => Err(e),
        (Some(Ok(item)), next) => match acc.with(item) {
            Err(e) => Err(e),
            Ok(then) => if pos < next <= s.len() {
                read_from(s, next, then)
            } else {
                Ok(then)
            },
        },
    }
}

/// What the attribute `s` configures, or the tokens that reject it.
pub open spec fn parsed(s: Stream) -> Result<ConfigView, Stream> {
    match read_from(s, 0, Reading::start()) {
        Ok(reading) => Ok(reading.finish()),
        Err(e) => Err(e),
    }
}

impl Config {
    /// A configuration that sets nothing.
    pub fn empty() -> (r: Self)
        ensures
            r@ == ConfigView::empty(),
    {
        Config {
            test_fn: None,
            skip_fn: None,
            skip_result: None,
            timeout: None,
            uses: TokenSet::default(),
            consumes: TokenSet::default(),
        }
    }

    /// The expression `etest::ResourceId::Basic`.
    pub fn get_default_uses() -> (r: Vec<Token>)
        ensures
            views(r@) == default_uses_view(),
    {
        let mut r: Vec<Token> = Vec::new();
        proof {
            lemma_views_empty(r@);
        }
        push_token(&mut r, Token::ident("etest"));
        push_path_sep(&mut r);
        push_token(&mut r, Token::ident("ResourceId"));
        push_path_sep(&mut r);
        push_token(&mut r, Token::ident("Basic"));
        assert(views(r@) =~= default_uses_view());
        r
    }

    /// Reads the attribute `attr`.
    pub fn parse(attr: Vec<Token>) -> (r: Result<Config, Vec<Token>>)
        ensures
            match parsed(views(attr@)) {
                Ok(config) => r matches Ok(got) && got@ == config,
                Err(e) => r matches Err(got) && views(got@) == e,
            },
    {
        let ghost s = views(attr@);
        let mut res = Config::empty();
        let mut no_default_uses = false;
        let mut notparallel = false;
        let mut it = ConfigIterator::new(attr);
        loop
            invariant_except_break
                it.wf(),
                it.stream() == s,
                0 <= it.position() <= s.len(),
                read_from(s, 0, Reading::start()) == read_from(
                    s,
                    it.position(),
                    Reading { config: res@, no_default_uses, notparallel },
                ),
            invariant
                s == views(attr@),
            ensures
                read_from(s, 0, Reading::start()) == Ok::<Reading, Stream>(
                    Reading { config: res@, no_default_uses, notparallel },
                ),
            decreases s.len() - it.position(),
        {
            let ghost pos = it.position();
            let ghost acc = Reading { config: res@, no_default_uses, notparallel };
            proof {
                if pos + 2 <= s.len() {
                    lemma_first_comma(s, pos + 2);
                }
            }
            let cfg = match it.next() {
                None => {
                    break ;
                },
                Some(Err(e)) => {
                    return Err(e);
                },
                Some(Ok(cfg)) => cfg,
            };
            if text_is(&cfg.key, "no_default_uses") {
                no_default_uses = true;
            } else if text_is(&cfg.key, "test_fn") {
                match cfg.convert_stream() {
                    Ok(v) => {
                        res.test_fn = v;
                    },
                    Err(e) => {
                        return Err(e);
                    },
                }
            } else if text_is(&cfg.key, "skip") {
                match cfg.convert_stream() {
                    Ok(v) => {
                        res.skip_fn = v;
                    },
                    Err(e) => {
                        return Err(e);
                    },
                }
            } else if text_is(&cfg.key, "skip_result") {
                match cfg.convert_stream() {
                    Ok(v) => {
                        res.skip_result = v;
                    },
                    Err(e) => {
                        return Err(e);
                    },
                }
            } else if text_is(&cfg.key, "timeout") {
                match cfg.convert_stream() {
                    Ok(v) => {
                        res.timeout = v;
                    },
                    Err(e) => {
                        return Err(e);
                    },
                }
            } else if text_is(&cfg.key, "uses") {
                match cfg.convert_set() {
                    Ok(Some(v)) => {
                        res.uses = v;
                    },
                    Ok(None) => {},
                    Err(e) => {
                        return Err(e);
                    },
                }
            } else if text_is(&cfg.key, "consumes") {
                match cfg.convert_set() {
                    Ok(Some(v)) => {
                        res.consumes = v;
                    },
                    Ok(None) => {},
                    Err(e) => {
                        return Err(e);
                    },
                }
            } else if text_is(&cfg.key, "notparallel") {
                notparallel = true;
            } else {
                let mut msg = String::from_str("unsupported key: \"");
                msg.append(cfg.key.as_str());
                msg.append("\"");
                return Err(err(Span::Call, msg.as_str()));
            }
            proof {
                assert(acc.with(cfg@) == Ok::<Reading, Stream>(
                    Reading { config: res@, no_default_uses, notparallel },
                ));
            }
        }
        if !no_default_uses {
            res.uses.push(Config::get_default_uses());
        }
        if notparallel {
            res.consumes.push(Config::get_default_uses());
        }
        Ok(res)
    }

    /// Tells whether the test keeps a test attribute: false only where
    /// `test_fn` is exactly `()`.
    pub fn has_test_fn(&self) -> (r: bool)
        ensures
            r == self@.has_test_fn(),
    {
        match &self.test_fn {
            None => true,
            Some(func) => {
                proof {
                    lemma_views(func@);
                }
                if func.len() == 0 {
                    return true;
                }
                match &func[0] {
                    Token::Group(delimiter, inner, _) => {
                        proof {
                            lemma_views(inner@);
                        }
                        match delimiter {
                            Delimiter::Parenthesis => if inner.len() == 0 {
                                func.len() > 1
                            } else {
                                true
                            },
                            _ => true,
                        }
                    },
                    _ => true,
                }
            },
        }
    }
}

} // verus!

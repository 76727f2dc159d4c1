use etest::{
    empty_args, err, etest, Config, ConfigItem, ConfigIterator, Delimiter, Error, Function,
    ListIterator, Spacing, Span, Token, TokenSet,
};

// tokens as a source file would give them, numbered in order

fn id(name: &str) -> Token {
    Token::Ident(name.to_string(), Span::Source(0))
}

fn p(c: char) -> Token {
    Token::Punct(c, Spacing::Alone, Span::Source(0))
}

fn pj(c: char) -> Token {
    Token::Punct(c, Spacing::Joint, Span::Source(0))
}

fn lit(text: &str) -> Token {
    Token::Literal(text.to_string(), Span::Source(0))
}

fn group(delimiter: Delimiter, inner: Vec<Token>) -> Token {
    Token::Group(delimiter, inner, Span::Source(0))
}

fn paren(inner: Vec<Token>) -> Token {
    group(Delimiter::Parenthesis, inner)
}

fn brace(inner: Vec<Token>) -> Token {
    group(Delimiter::Brace, inner)
}

fn bracket(inner: Vec<Token>) -> Token {
    group(Delimiter::Bracket, inner)
}

// tokens as the attribute makes them

fn mid(name: &str) -> Token {
    Token::Ident(name.to_string(), Span::Mixed)
}

fn mp(c: char) -> Token {
    Token::Punct(c, Spacing::Alone, Span::Call)
}

fn mpj(c: char) -> Token {
    Token::Punct(c, Spacing::Joint, Span::Call)
}

fn mgroup(delimiter: Delimiter, inner: Vec<Token>) -> Token {
    Token::Group(delimiter, inner, Span::Call)
}

fn sep() -> Vec<Token> {
    vec![mpj(':'), mp(':')]
}

fn path(names: &[&str]) -> Vec<Token> {
    let mut out = Vec::new();
    for (i, name) in names.iter().enumerate() {
        if i > 0 {
            out.extend(sep());
        }
        out.push(mid(name));
    }
    out
}

fn basic() -> Vec<Token> {
    path(&["etest", "ResourceId", "Basic"])
}

fn rejection(span: Span, msg: &str) -> Vec<Token> {
    vec![
        Token::Ident("compile_error".to_string(), span),
        mp('!'),
        mgroup(Delimiter::Parenthesis, vec![Token::Text(msg.to_string(), Span::Call)]),
    ]
}

fn cat(parts: Vec<Vec<Token>>) -> Vec<Token> {
    parts.into_iter().flatten().collect()
}

fn generic() -> Vec<Token> {
    let mut capture = path(&["etest", "Location", "new"]);
    capture.push(mgroup(Delimiter::Parenthesis, vec![]));
    cat(vec![
        vec![mid("use")],
        path(&["etest", "prelude"]),
        sep(),
        vec![
            mp('*'),
            mp(';'),
            mid("let"),
            mid("etest_current_test"),
            mp('='),
            mgroup(
                Delimiter::Parenthesis,
                vec![mp('|'), mp('|'), mgroup(Delimiter::Brace, capture)],
            ),
            mgroup(Delimiter::Parenthesis, vec![]),
            mp(';'),
        ],
    ])
}

fn plain_function() -> Function {
    Function::parse(&vec![id("fn"), id("test"), paren(vec![]), brace(vec![id("work")])]).unwrap()
}

#[test]
fn err_makes_compile_error() {
    assert_eq!(err(Span::Source(7), "unexpected key"), rejection(Span::Source(7), "unexpected key"));
    assert_eq!(err(Span::Call, ""), rejection(Span::Call, ""));
}

#[test]
fn empty_args_is_an_empty_group() {
    assert_eq!(empty_args(), mgroup(Delimiter::Parenthesis, vec![]));
}

#[test]
fn token_clone_is_deep() {
    let t = brace(vec![id("a"), paren(vec![lit("1"), p(',')]), Token::Text("x".to_string(), Span::Call)]);
    assert_eq!(t.clone(), t);
    assert_eq!(t.span(), Span::Source(0));
    assert!(p(',').is_punct(','));
    assert!(!p(';').is_punct(','));
    assert!(!id("a").is_punct(','));
    assert!(id("fn").is_ident("fn"));
    assert!(!id("fn").is_ident("f"));
    assert!(!lit("fn").is_ident("fn"));
    assert!(lit("1").is_literal());
    assert!(Token::Text("a".to_string(), Span::Call).is_literal());
    assert!(!id("a").is_literal());
}

#[test]
fn error_names() {
    assert_eq!(Error::NoValue.name(), "NoValue");
    assert_eq!(Error::BadValue.name(), "BadValue");
    assert_eq!(Error::BadInteger.name(), "BadInteger");
    assert_eq!(Error::BadType.name(), "BadType");
    assert_eq!(Error::ExtraData.name(), "ExtraData");
    assert_eq!(Error::FunctionDeclIncomplete.name(), "FunctionDeclIncomplete");
    assert_eq!(Error::FunctionDeclBad.name(), "FunctionDeclBad");
    assert_eq!(Error::FunctionNoBody.name(), "FunctionNoBody");
    assert_eq!(Error::FunctionExtraTokens.name(), "FunctionExtraTokens");
}

#[test]
fn config_iterator_splits_items() {
    // skip = foo(), timeout = 2_000, notparallel
    let mut it = ConfigIterator::new(vec![
        id("skip"),
        p('='),
        id("foo"),
        paren(vec![]),
        p(','),
        id("timeout"),
        p('='),
        lit("2_000"),
        p(','),
        id("notparallel"),
    ]);
    let first = it.next().unwrap().unwrap();
    assert_eq!(first.get_key(), "skip");
    assert_eq!(first.val, Some(vec![id("foo"), paren(vec![])]));
    let second = it.next().unwrap().unwrap();
    assert_eq!(
        second,
        ConfigItem { key: "timeout".to_string(), span: Span::Source(0), val: Some(vec![lit("2_000")]) }
    );
    let third = it.next().unwrap().unwrap();
    assert_eq!(third.get_key(), "notparallel");
    assert_eq!(third.val, None);
    assert!(it.next().is_none());
    assert!(it.next().is_none());
}

#[test]
fn config_iterator_edge_cases() {
    assert!(ConfigIterator::new(vec![]).next().is_none());

    // a key followed by a comma, and a value that is empty
    let mut it = ConfigIterator::new(vec![id("a"), p(','), id("b"), p('=')]);
    assert_eq!(it.next().unwrap().unwrap().val, None);
    assert_eq!(it.next().unwrap().unwrap().val, Some(vec![]));
    assert!(it.next().is_none());

    // commas inside a group do not end the value
    let mut it = ConfigIterator::new(vec![id("uses"), p('='), bracket(vec![lit("1"), p(','), lit("2")])]);
    assert_eq!(
        it.next().unwrap().unwrap().val,
        Some(vec![bracket(vec![lit("1"), p(','), lit("2")])])
    );
}

#[test]
fn config_iterator_rejects_bad_items() {
    let at = Token::Literal("1".to_string(), Span::Source(4));
    let mut it = ConfigIterator::new(vec![at, id("b")]);
    assert_eq!(it.next().unwrap(), Err(rejection(Span::Source(4), "unexpected key")));
    // the walk goes on behind the token that was refused
    assert_eq!(it.next().unwrap().unwrap().get_key(), "b");

    let semi = Token::Punct(';', Spacing::Alone, Span::Source(9));
    let mut it = ConfigIterator::new(vec![id("a"), semi, id("b")]);
    assert_eq!(it.next().unwrap(), Err(rejection(Span::Source(9), "unexpected delimeter")));
    assert_eq!(it.next().unwrap().unwrap().get_key(), "b");
}

#[test]
fn list_iterator_splits_elements() {
    let mut it = ListIterator::new(vec![lit("\"A\""), p(','), id("ResId"), pj(':'), p(':'), id("X"), p(',')]);
    assert_eq!(it.next().unwrap(), Ok(vec![lit("\"A\"")]));
    assert_eq!(it.next().unwrap(), Ok(vec![id("ResId"), pj(':'), p(':'), id("X")]));
    assert!(it.next().is_none());
    assert!(ListIterator::new(vec![]).next().is_none());
}

#[test]
fn list_iterator_rejects_missing_elements() {
    let comma = Token::Punct(',', Spacing::Alone, Span::Source(3));
    let mut it = ListIterator::new(vec![comma.clone(), id("a")]);
    assert_eq!(it.next().unwrap(), Err(rejection(Span::Source(3), "unexpected delimeter")));

    let mut it = ListIterator::new(vec![id("a"), p(','), comma, id("b")]);
    assert_eq!(it.next().unwrap(), Ok(vec![id("a")]));
    assert_eq!(it.next().unwrap(), Err(rejection(Span::Source(3), "unexpected delimeter")));
    assert_eq!(it.next().unwrap(), Ok(vec![id("b")]));
}

#[test]
fn token_set_from_stream() {
    assert_eq!(
        TokenSet::from_stream(&vec![lit("\"video\"")]),
        Ok(TokenSet(vec![vec![lit("\"video\"")]]))
    );
    let list = vec![lit("\"video\""), p(','), id("output"), paren(vec![])];
    let expected = TokenSet(vec![vec![lit("\"video\"")], vec![id("output"), paren(vec![])]]);
    assert_eq!(TokenSet::from_stream(&vec![bracket(list.clone())]), Ok(expected));
    let expected = TokenSet(vec![vec![lit("\"video\"")], vec![id("output"), paren(vec![])]]);
    assert_eq!(TokenSet::from_stream(&vec![brace(list)]), Ok(expected));
    assert_eq!(TokenSet::from_stream(&vec![bracket(vec![])]), Ok(TokenSet(vec![])));
}

#[test]
fn token_set_errors() {
    assert_eq!(TokenSet::from_stream(&vec![]), Err(Error::NoValue));
    assert_eq!(TokenSet::from_stream(&vec![id("x")]), Err(Error::BadValue));
    assert_eq!(TokenSet::from_stream(&vec![paren(vec![lit("1")])]), Err(Error::BadValue));
    assert_eq!(TokenSet::from_stream(&vec![bracket(vec![p(',')])]), Err(Error::BadValue));
    assert_eq!(TokenSet::from_stream(&vec![lit("1"), lit("2")]), Err(Error::ExtraData));
    assert_eq!(TokenSet::from_stream(&vec![bracket(vec![lit("1")]), id("x")]), Err(Error::ExtraData));
    // a bad list is reported before what follows it
    assert_eq!(TokenSet::from_stream(&vec![bracket(vec![p(',')]), id("x")]), Err(Error::BadValue));
    assert_eq!(TokenSet::from_group(&vec![id("a"), p(','), p(',')]), Err(Error::BadValue));
}

#[test]
fn token_set_push_and_items() {
    let mut set = TokenSet::default();
    assert!(set.is_empty());
    set.push(vec![lit("1")]);
    set.push(vec![]);
    assert!(!set.is_empty());
    assert_eq!(set.items(), &vec![vec![lit("1")], vec![]]);
}

#[test]
fn item_conversions() {
    let with = ConfigItem { key: "uses".to_string(), span: Span::Call, val: Some(vec![lit("\"a\"")]) };
    assert_eq!(with.try_into_stream(), Ok(vec![lit("\"a\"")]));
    assert_eq!(with.try_into_set(), Ok(TokenSet(vec![vec![lit("\"a\"")]])));
    assert_eq!(with.convert_stream(), Ok(Some(vec![lit("\"a\"")])));
    assert_eq!(with.convert_set(), Ok(Some(TokenSet(vec![vec![lit("\"a\"")]]))));

    let without = ConfigItem { key: "uses".to_string(), span: Span::Call, val: None };
    assert_eq!(without.try_into_stream(), Err(Error::NoValue));
    assert_eq!(without.try_into_set(), Err(Error::NoValue));
    assert_eq!(without.convert_stream(), Err(rejection(Span::Call, "bad 'uses' value: NoValue")));
    assert_eq!(without.convert_set(), Err(rejection(Span::Call, "bad 'uses' value: NoValue")));

    let bad = ConfigItem { key: "consumes".to_string(), span: Span::Call, val: Some(vec![id("x")]) };
    assert_eq!(bad.convert_set(), Err(rejection(Span::Call, "bad 'consumes' value: BadValue")));
    assert_eq!(bad.reject(Error::ExtraData), rejection(Span::Call, "bad 'consumes' value: ExtraData"));
}

#[test]
fn default_uses_is_the_basic_resource() {
    assert_eq!(Config::get_default_uses(), basic());
}

#[test]
fn parse_empty_attribute() {
    let cfg = Config::parse(vec![]).unwrap();
    assert_eq!(cfg.test_fn, None);
    assert_eq!(cfg.skip_fn, None);
    assert_eq!(cfg.skip_result, None);
    assert_eq!(cfg.timeout, None);
    assert_eq!(cfg.uses, TokenSet(vec![basic()]));
    assert_eq!(cfg.consumes, TokenSet(vec![]));
}

#[test]
fn parse_full_attribute() {
    // skip=foo(), timeout=2_000, uses={"A", "B"}, consumes={"C"}, skip_result=42, test_fn=mytest
    let cfg = Config::parse(vec![
        id("skip"),
        p('='),
        id("foo"),
        paren(vec![]),
        p(','),
        id("timeout"),
        p('='),
        lit("2_000"),
        p(','),
        id("uses"),
        p('='),
        brace(vec![lit("\"A\""), p(','), lit("\"B\"")]),
        p(','),
        id("consumes"),
        p('='),
        brace(vec![lit("\"C\"")]),
        p(','),
        id("skip_result"),
        p('='),
        lit("42"),
        p(','),
        id("test_fn"),
        p('='),
        id("mytest"),
    ])
    .unwrap();
    assert_eq!(cfg.skip_fn, Some(vec![id("foo"), paren(vec![])]));
    assert_eq!(cfg.timeout, Some(vec![lit("2_000")]));
    assert_eq!(cfg.skip_result, Some(vec![lit("42")]));
    assert_eq!(cfg.test_fn, Some(vec![id("mytest")]));
    assert_eq!(cfg.uses, TokenSet(vec![vec![lit("\"A\"")], vec![lit("\"B\"")], basic()]));
    assert_eq!(cfg.consumes, TokenSet(vec![vec![lit("\"C\"")]]));
}

#[test]
fn parse_default_discipline() {
    let cfg = Config::parse(vec![id("no_default_uses")]).unwrap();
    assert_eq!(cfg.uses, TokenSet(vec![]));
    assert_eq!(cfg.consumes, TokenSet(vec![]));

    let cfg = Config::parse(vec![id("notparallel")]).unwrap();
    assert_eq!(cfg.uses, TokenSet(vec![basic()]));
    assert_eq!(cfg.consumes, TokenSet(vec![basic()]));

    let cfg = Config::parse(vec![id("notparallel"), p(','), id("no_default_uses"), p(',')]).unwrap();
    assert_eq!(cfg.uses, TokenSet(vec![]));
    assert_eq!(cfg.consumes, TokenSet(vec![basic()]));

    // a later setting replaces an earlier one
    let cfg = Config::parse(vec![
        id("uses"),
        p('='),
        lit("\"a\""),
        p(','),
        id("uses"),
        p('='),
        lit("\"b\""),
    ])
    .unwrap();
    assert_eq!(cfg.uses, TokenSet(vec![vec![lit("\"b\"")], basic()]));
}

#[test]
fn parse_rejects_bad_attributes() {
    assert_eq!(
        Config::parse(vec![id("bogus")]),
        Err(rejection(Span::Call, "unsupported key: \"bogus\""))
    );
    assert_eq!(
        Config::parse(vec![id("skip")]),
        Err(rejection(Span::Call, "bad 'skip' value: NoValue"))
    );
    assert_eq!(
        Config::parse(vec![id("timeout"), p(',')]),
        Err(rejection(Span::Call, "bad 'timeout' value: NoValue"))
    );
    assert_eq!(
        Config::parse(vec![id("uses"), p('='), id("x")]),
        Err(rejection(Span::Call, "bad 'uses' value: BadValue"))
    );
    assert_eq!(
        Config::parse(vec![id("uses"), p('=')]),
        Err(rejection(Span::Call, "bad 'uses' value: NoValue"))
    );
    assert_eq!(
        Config::parse(vec![id("consumes"), p('='), lit("1"), lit("2")]),
        Err(rejection(Span::Call, "bad 'consumes' value: ExtraData"))
    );
    let at = Token::Literal("7".to_string(), Span::Source(2));
    assert_eq!(
        Config::parse(vec![id("notparallel"), p(','), at]),
        Err(rejection(Span::Source(2), "unexpected key"))
    );
    let colon = Token::Punct(':', Spacing::Alone, Span::Source(5));
    assert_eq!(
        Config::parse(vec![id("skip"), colon]),
        Err(rejection(Span::Source(5), "unexpected delimeter"))
    );
}

#[test]
fn has_test_fn_unless_unit() {
    let mut cfg = Config::empty();
    assert!(cfg.has_test_fn());
    cfg.test_fn = Some(vec![paren(vec![])]);
    assert!(!cfg.has_test_fn());
    cfg.test_fn = Some(vec![paren(vec![]), id("x")]);
    assert!(cfg.has_test_fn());
    cfg.test_fn = Some(vec![paren(vec![id("x")])]);
    assert!(cfg.has_test_fn());
    cfg.test_fn = Some(vec![bracket(vec![])]);
    assert!(cfg.has_test_fn());
    cfg.test_fn = Some(vec![id("mytest")]);
    assert!(cfg.has_test_fn());
    cfg.test_fn = Some(vec![]);
    assert!(cfg.has_test_fn());
}

#[test]
fn function_parse_plain() {
    // #[should_panic] pub async fn test() { work }
    let f = Function::parse(&vec![
        p('#'),
        bracket(vec![id("should_panic")]),
        id("pub"),
        id("async"),
        id("fn"),
        id("test"),
        paren(vec![]),
        brace(vec![id("work")]),
    ])
    .unwrap();
    assert_eq!(f.attr, vec![bracket(vec![id("should_panic")])]);
    assert_eq!(f.decl, vec![id("pub"), id("async"), id("fn"), id("test"), paren(vec![])]);
    assert_eq!(f.body, vec![brace(vec![id("work")])]);
    assert_eq!(f.name, "test");
    assert!(f.is_async);
    assert!(!f.no_return);
    assert_eq!(f.ret, None);
}

#[test]
fn function_parse_return_type() {
    // fn test3() -> Result<(), ()> { body }
    let ret = vec![id("Result"), p('<'), paren(vec![]), p(','), paren(vec![]), p('>')];
    let mut tokens = vec![id("fn"), id("test3"), paren(vec![]), pj('-'), p('>')];
    tokens.extend(ret.iter().cloned());
    tokens.push(brace(vec![id("body")]));
    let f = Function::parse(&tokens).unwrap();
    assert_eq!(f.name, "test3");
    assert_eq!(f.ret, Some(ret.clone()));
    let mut decl = vec![id("fn"), id("test3"), paren(vec![]), pj('-'), p('>')];
    decl.extend(ret);
    assert_eq!(f.decl, decl);
    assert_eq!(f.body, vec![brace(vec![id("body")])]);
    assert!(!f.is_async);
    assert!(!f.no_return);
}

#[test]
fn function_parse_generics_and_visibility() {
    // pub(crate) fn test<T>(a: T) -> u32 { 0 }
    let tokens = vec![
        id("pub"),
        paren(vec![id("crate")]),
        id("fn"),
        id("test"),
        p('<'),
        id("T"),
        p('>'),
        paren(vec![id("a"), p(':'), id("T")]),
        pj('-'),
        p('>'),
        id("u32"),
        brace(vec![lit("0")]),
    ];
    let f = Function::parse(&tokens).unwrap();
    assert_eq!(f.decl, tokens[..11].to_vec());
    assert_eq!(f.ret, Some(vec![id("u32")]));
    assert_eq!(f.name, "test");
}

#[test]
fn function_parse_never_becomes_unit() {
    // async fn test1_0() -> ! { todo }
    let f = Function::parse(&vec![
        id("async"),
        id("fn"),
        id("test1_0"),
        paren(vec![]),
        pj('-'),
        p('>'),
        p('!'),
        brace(vec![id("todo")]),
    ])
    .unwrap();
    assert!(f.no_return);
    assert!(f.is_async);
    assert_eq!(f.ret, None);
    assert_eq!(
        f.decl,
        vec![id("async"), id("fn"), id("test1_0"), paren(vec![]), pj('-'), p('>'), empty_args()]
    );
    assert_eq!(f.body, vec![brace(vec![id("todo")])]);
}

#[test]
fn function_parse_unit_return_type() {
    // fn test2() -> () { todo }: the first group of the return type is no body
    let f = Function::parse(&vec![
        id("fn"),
        id("test2"),
        paren(vec![]),
        pj('-'),
        p('>'),
        paren(vec![]),
        brace(vec![id("todo")]),
    ])
    .unwrap();
    assert_eq!(f.ret, Some(vec![paren(vec![])]));
    assert_eq!(f.body, vec![brace(vec![id("todo")])]);
}

#[test]
fn function_parse_errors() {
    assert_eq!(Function::parse(&vec![]), Err(Error::FunctionDeclIncomplete));
    assert_eq!(Function::parse(&vec![id("pub")]), Err(Error::FunctionDeclIncomplete));
    assert_eq!(Function::parse(&vec![id("pub"), p('#')]), Err(Error::FunctionDeclBad));
    assert_eq!(Function::parse(&vec![id("fn")]), Err(Error::FunctionDeclIncomplete));
    assert_eq!(Function::parse(&vec![id("fn"), lit("1")]), Err(Error::FunctionDeclBad));
    assert_eq!(Function::parse(&vec![id("fn"), id("t")]), Err(Error::FunctionDeclIncomplete));
    assert_eq!(
        Function::parse(&vec![id("fn"), id("t"), brace(vec![])]),
        Err(Error::FunctionDeclIncomplete)
    );
    assert_eq!(
        Function::parse(&vec![id("fn"), id("t"), paren(vec![])]),
        Err(Error::FunctionDeclIncomplete)
    );
    assert_eq!(
        Function::parse(&vec![id("fn"), id("t"), paren(vec![]), id("where")]),
        Err(Error::FunctionDeclBad)
    );
    assert_eq!(
        Function::parse(&vec![id("fn"), id("t"), paren(vec![]), pj('-'), pj('-')]),
        Err(Error::FunctionDeclBad)
    );
    assert_eq!(
        Function::parse(&vec![id("fn"), id("t"), paren(vec![]), pj('-'), p('>'), p('!')]),
        Err(Error::FunctionNoBody)
    );
    assert_eq!(
        Function::parse(&vec![id("fn"), id("t"), paren(vec![]), pj('-'), p('>'), id("u8")]),
        Err(Error::FunctionDeclIncomplete)
    );
    assert_eq!(
        Function::parse(&vec![id("fn"), id("t"), paren(vec![]), brace(vec![]), p(';')]),
        Err(Error::FunctionExtraTokens)
    );
}

#[test]
fn default_return_tokens() {
    let mut f = plain_function();
    assert_eq!(f.default_return(), vec![]);
    f.no_return = true;
    assert_eq!(f.default_return(), vec![empty_args()]);
    f.ret = Some(vec![id("u32")]);
    let mut expected = path(&["etest", "DefaultReturn", "default_return"]);
    expected.push(mgroup(Delimiter::Parenthesis, vec![]));
    assert_eq!(f.default_return(), expected);
}

#[test]
fn emit_test_decl_variants() {
    let mut f = plain_function();
    let mut cfg = Config::empty();
    assert_eq!(
        cfg.emit_test_decl(&f),
        vec![mp('#'), mgroup(Delimiter::Bracket, vec![mid("test")])]
    );
    f.is_async = true;
    f.attr = vec![bracket(vec![id("should_panic")]), bracket(vec![id("ignore")])];
    assert_eq!(
        cfg.emit_test_decl(&f),
        vec![
            mp('#'),
            mgroup(Delimiter::Bracket, path(&["tokio", "test"])),
            mp('#'),
            bracket(vec![id("should_panic")]),
            mp('#'),
            bracket(vec![id("ignore")]),
        ]
    );
    cfg.test_fn = Some(vec![id("mytest")]);
    f.attr = vec![];
    assert_eq!(
        cfg.emit_test_decl(&f),
        vec![mp('#'), mgroup(Delimiter::Bracket, vec![id("mytest")])]
    );
    cfg.test_fn = Some(vec![paren(vec![])]);
    f.attr = vec![bracket(vec![id("should_panic")])];
    assert_eq!(cfg.emit_test_decl(&f), vec![]);
}

#[test]
fn emit_generic_captures_the_location() {
    assert_eq!(Config::empty().emit_generic(&plain_function()), generic());
}

#[test]
fn emit_skip_fn_variants() {
    let mut f = plain_function();
    let mut cfg = Config::empty();
    assert_eq!(cfg.emit_skip_fn(&f), vec![]);

    let block = |value: Vec<Token>| {
        cat(vec![
            path(&["etest", "mark_skipped"]),
            vec![
                mgroup(Delimiter::Parenthesis, vec![mpj('&'), mid("etest_current_test")]),
                mp(';'),
                Token::Ident("return".to_string(), Span::Call),
            ],
            value,
        ])
    };
    let check = |skip: Vec<Token>, value: Vec<Token>| {
        vec![
            mid("if"),
            mp('!'),
            mgroup(Delimiter::Parenthesis, skip),
            mgroup(Delimiter::Brace, vec![]),
            mid("else"),
            mgroup(Delimiter::Brace, block(value)),
        ]
    };

    cfg.skip_fn = Some(vec![id("check_func"), paren(vec![])]);
    assert_eq!(cfg.emit_skip_fn(&f), check(vec![id("check_func"), paren(vec![])], vec![]));

    cfg.skip_result = Some(vec![lit("23")]);
    assert_eq!(cfg.emit_skip_fn(&f), check(vec![id("check_func"), paren(vec![])], vec![lit("23")]));

    cfg.skip_result = None;
    f.ret = Some(vec![id("u32")]);
    let mut value = path(&["etest", "DefaultReturn", "default_return"]);
    value.push(mgroup(Delimiter::Parenthesis, vec![]));
    assert_eq!(cfg.emit_skip_fn(&f), check(vec![id("check_func"), paren(vec![])], value));
}

#[test]
fn emit_lock_variants() {
    let f = plain_function();
    let mut cfg = Config::empty();
    assert_eq!(cfg.emit_lock(&f), vec![]);

    cfg.uses = TokenSet(vec![vec![lit("\"network\"")], basic()]);
    cfg.consumes = TokenSet(vec![vec![lit("\"video\"")]]);
    let call = |method: &str, arg: Vec<Token>| {
        vec![mp('.'), mid(method), mgroup(Delimiter::Parenthesis, arg)]
    };
    let expected = cat(vec![
        vec![mid("let"), mid("_resource_lock"), mp('=')],
        path(&["etest", "ResourceBuilder", "new"]),
        vec![mgroup(Delimiter::Parenthesis, vec![])],
        call("uses", vec![lit("\"network\"")]),
        call("uses", basic()),
        call("consumes", vec![lit("\"video\"")]),
        vec![
            mp('.'),
            mid("reserve"),
            mgroup(
                Delimiter::Parenthesis,
                cat(vec![
                    vec![mp('&')],
                    path(&["etest", "RESOURCES"]),
                    vec![mp(','), mpj('&'), mid("etest_current_test")],
                ]),
            ),
            mpj(';'),
        ],
    ]);
    assert_eq!(cfg.emit_lock(&f), expected);

    cfg.uses = TokenSet(vec![]);
    assert!(!cfg.emit_lock(&f).is_empty());
}

#[test]
fn emit_timeout_variants() {
    let mut f = plain_function();
    let mut cfg = Config::empty();
    assert_eq!(cfg.emit_timeout(&f), vec![brace(vec![id("work")])]);

    cfg.timeout = Some(vec![lit("2_000")]);
    let args = |is_async: bool| {
        cat(vec![
            vec![mpj('&'), mid("etest_current_test"), mp(','), lit("2_000"), mp(',')],
            vec![mid("move"), mp('|'), mp('|')],
            if is_async { vec![mid("async")] } else { vec![] },
            vec![brace(vec![id("work")])],
        ])
    };
    let mut expected = path(&["etest", "panic_after"]);
    expected.push(mgroup(Delimiter::Parenthesis, args(false)));
    assert_eq!(cfg.emit_timeout(&f), expected);

    f.is_async = true;
    let mut expected = path(&["etest", "panic_after"]);
    expected.push(mgroup(Delimiter::Parenthesis, args(true)));
    expected.extend(vec![mp('.'), mid("await")]);
    assert_eq!(cfg.emit_timeout(&f), expected);
}

#[test]
fn etest_expands_in_order() {
    // #[etest(skip=foo(), no_default_uses)] fn t() { work }
    let attr = vec![id("skip"), p('='), id("foo"), paren(vec![]), p(','), id("no_default_uses")];
    let item = vec![id("fn"), id("t"), paren(vec![]), brace(vec![id("work")])];
    let cfg = Config::parse(attr.clone()).unwrap();
    let f = Function::parse(&item).unwrap();
    let body = cat(vec![
        cfg.emit_generic(&f),
        cfg.emit_skip_fn(&f),
        cfg.emit_lock(&f),
        cfg.emit_timeout(&f),
    ]);
    let expected = cat(vec![
        vec![mp('#'), mgroup(Delimiter::Bracket, vec![mid("test")])],
        vec![id("fn"), id("t"), paren(vec![])],
        vec![mgroup(Delimiter::Brace, body)],
    ]);
    assert_eq!(etest(attr, item), expected);
}

#[test]
fn etest_skip_comes_before_reservation_and_timeout() {
    let attr = vec![
        id("timeout"),
        p('='),
        lit("1000"),
        p(','),
        id("consumes"),
        p('='),
        lit("\"x\""),
        p(','),
        id("skip"),
        p('='),
        id("true"),
    ];
    let item = vec![id("fn"), id("t"), paren(vec![]), brace(vec![])];
    let out = etest(attr, item);
    let body = match out.last().unwrap() {
        Token::Group(Delimiter::Brace, inner, _) => inner.clone(),
        other => panic!("no body but {:?}", other),
    };
    let position = |name: &str| body.iter().position(|t| t.is_ident(name)).unwrap();
    assert!(position("etest_current_test") < position("if"));
    assert!(position("if") < position("_resource_lock"));
    assert!(position("_resource_lock") < position("panic_after"));
}

#[test]
fn etest_reports_bad_input() {
    let item = vec![id("fn"), id("t"), paren(vec![]), brace(vec![])];
    assert_eq!(
        etest(vec![id("bogus")], item.clone()),
        rejection(Span::Call, "unsupported key: \"bogus\"")
    );
    assert_eq!(
        etest(vec![], vec![id("fn"), id("t")]),
        rejection(Span::Call, "failed to parse function FunctionDeclIncomplete")
    );
    assert_eq!(
        etest(vec![], vec![id("struct"), id("fn"), lit("1")]),
        rejection(Span::Call, "failed to parse function FunctionDeclBad")
    );
    // the attribute is looked at first
    assert_eq!(
        etest(vec![id("bogus")], vec![]),
        rejection(Span::Call, "unsupported key: \"bogus\"")
    );
}

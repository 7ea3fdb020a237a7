use raw_call::{ParseError, RawCall};

#[test]
fn sep() {
    assert_eq!(raw_call::sep(", "), Ok((" ", ",")));
    assert_eq!(raw_call::sep(")"), Ok(("", ")")));
    assert_eq!(raw_call::sep("("), Ok(("", "(")));
}

#[test]
fn sep_spaced() {
    assert_eq!(raw_call::sep_spaced(" , "), Ok(("", ",")));
    assert_eq!(raw_call::sep_spaced(" )"), Ok(("", ")")));
    assert_eq!(raw_call::sep_spaced("("), Ok(("", "(")));
}

#[test]
fn argument() {
    assert_eq!(raw_call::argument("  hi  ,"), Ok((",", "  hi  ")));
    assert_eq!(raw_call::argument("  hi  ("), Ok(("(", "  hi  ")));
    assert_eq!(raw_call::argument("  hi  )"), Ok((")", "  hi  ")));
}

#[test]
fn argument_spaced() {
    assert_eq!(raw_call::argument_spaced("  hi  ,"), Ok((",", "hi")));
    assert_eq!(raw_call::argument_spaced("  hi  ("), Ok(("(", "hi")));
    assert_eq!(raw_call::argument_spaced("  hi  )"), Ok((")", "hi")));
}

#[test]
fn argument_maybe() {
    assert_eq!(raw_call::argument_maybe("  hi  ,"), Ok((",", "hi")));
    assert_eq!(raw_call::argument_maybe("  hi  ("), Ok(("(", "hi")));
    assert_eq!(raw_call::argument_maybe("  hi  )"), Ok((")", "hi")));
    assert_eq!(raw_call::argument_maybe(""), Ok(("", "")));
}

#[test]
fn sep_argument() {
    assert_eq!(raw_call::sep_argument(")  hi  ,"), Ok((",", "hi")));
    assert_eq!(raw_call::sep_argument("(  hi  ("), Ok(("(", "hi")));
    assert_eq!(raw_call::sep_argument(",  hi  )"), Ok((")", "hi")));
}

#[test]
fn arguments() {
    assert_eq!(
        raw_call::arguments(")  hi  ,  hi  (  hi  )"),
        Ok(("", vec!["hi", "hi", "hi", ""]))
    );
}

#[test]
fn call_name() {
    assert_eq!(raw_call::call_name("asdfasdf"), Ok(("", "asdfasdf")));
    assert_eq!(raw_call::call_name("asdfasdf2"), Ok(("", "asdfasdf2")));
    assert_eq!(raw_call::call_name("asdfasdf2("), Ok(("(", "asdfasdf2")));
    assert!(raw_call::call_name("").is_err());
}

#[test]
fn call() {
    assert_eq!(
        raw_call::call("say(2)"),
        Ok((
            "",
            RawCall {
                name: "say",
                args: vec!["2", ""],
            }
        ))
    );
    assert_eq!(
        raw_call::call("endtext"),
        Ok((
            "",
            RawCall {
                name: "endtext",
                args: vec![],
            }
        ))
    );
    assert_eq!(
        raw_call::call("createcrewman,0,0, red,0,followplayer"),
        Ok((
            "",
            RawCall {
                name: "createcrewman",
                args: vec!["0", "0", "red", "0", "followplayer"],
            }
        ))
    );
}

#[test]
fn sep_takes_each_separator_and_nothing_more() {
    for mark in [",", "(", ")"] {
        for tail in ["", "x", " , ", ",,", "é(", "\n"] {
            let input = format!("{mark}{tail}");
            assert_eq!(raw_call::sep(&input), Ok((tail, mark)));
        }
    }
}

#[test]
fn sep_fails_on_anything_else() {
    for input in ["", " ", " ,", "a,", "\t(", "2)", "é", "[", "\n,", ";"] {
        assert_eq!(raw_call::sep(input), Err(ParseError::NoMatch));
    }
}

#[test]
fn sep_spaced_takes_spaces_and_tabs_only() {
    assert_eq!(raw_call::sep_spaced(" \t ( \t x "), Ok(("x ", "(")));
    assert_eq!(raw_call::sep_spaced(",\n"), Ok(("\n", ",")));
    assert_eq!(raw_call::sep_spaced(",\u{A0}x"), Ok(("\u{A0}x", ",")));
    assert_eq!(raw_call::sep_spaced("\n,"), Err(ParseError::NoMatch));
    assert_eq!(raw_call::sep_spaced("  "), Err(ParseError::NoMatch));
    assert_eq!(raw_call::sep_spaced(""), Err(ParseError::NoMatch));
    assert_eq!(raw_call::sep_spaced("  x,"), Err(ParseError::NoMatch));
}

#[test]
fn argument_needs_a_character() {
    assert_eq!(raw_call::argument(""), Err(ParseError::NoMatch));
    assert_eq!(raw_call::argument(",x"), Err(ParseError::NoMatch));
    assert_eq!(raw_call::argument("(x"), Err(ParseError::NoMatch));
    assert_eq!(raw_call::argument(")x"), Err(ParseError::NoMatch));
    assert_eq!(raw_call::argument(" "), Ok(("", " ")));
    assert_eq!(raw_call::argument("no separator"), Ok(("", "no separator")));
    assert_eq!(raw_call::argument("a\nb,c"), Ok((",c", "a\nb")));
}

#[test]
fn argument_reads_plain_text_up_to_the_comma() {
    for text in ["hi", "a b", "x", "0", "followplayer", "naïve", "a\tb\nc", "[x]"] {
        let input = format!("{text},");
        assert_eq!(raw_call::argument(&input), Ok((",", text)));
        assert_eq!(raw_call::argument_spaced(&input), Ok((",", text)));
        assert_eq!(raw_call::argument_maybe(&input), Ok((",", text)));
    }
}

#[test]
fn argument_before_a_lone_comma_is_missing() {
    assert_eq!(raw_call::argument(","), Err(ParseError::NoMatch));
    assert_eq!(raw_call::argument_spaced(","), Err(ParseError::NoMatch));
    assert_eq!(raw_call::argument_maybe(","), Ok((",", "")));
}

#[test]
fn argument_spaced_strips_all_whitespace() {
    assert_eq!(raw_call::argument_spaced("\n\t hi \r\n,"), Ok((",", "hi")));
    assert_eq!(raw_call::argument_spaced("\u{3000}hi\u{2003}"), Ok(("", "hi")));
    assert_eq!(raw_call::argument_spaced(" a  b "), Ok(("", "a  b")));
    assert_eq!(raw_call::argument_spaced(" \n "), Ok(("", "")));
    assert_eq!(raw_call::argument_spaced("   )"), Ok((")", "")));
    assert_eq!(raw_call::argument_spaced(""), Err(ParseError::NoMatch));
    assert_eq!(raw_call::argument_spaced("(a"), Err(ParseError::NoMatch));
}

#[test]
fn whitespace_is_the_unicode_property() {
    let blank: [u32; 25] = [
        0x9, 0xA, 0xB, 0xC, 0xD, 0x20, 0x85, 0xA0, 0x1680, 0x2000, 0x2001, 0x2002, 0x2003, 0x2004,
        0x2005, 0x2006, 0x2007, 0x2008, 0x2009, 0x200A, 0x2028, 0x2029, 0x202F, 0x205F, 0x3000,
    ];
    for code in 0..=0x10FFFFu32 {
        let c = match char::from_u32(code) {
            Some(c) => c,
            None => continue,
        };
        if c == ',' || c == '(' || c == ')' {
            continue;
        }
        let input = format!("{c}a{c}");
        let (rest, token) = raw_call::argument_spaced(&input).unwrap();
        assert_eq!(rest, "");
        if blank.contains(&code) {
            assert_eq!(token, "a", "U+{code:04X} is whitespace");
        } else {
            assert_eq!(token, input, "U+{code:04X} is not whitespace");
        }
    }
}

#[test]
fn argument_maybe_never_fails() {
    assert_eq!(raw_call::argument_maybe(""), Ok(("", "")));
    assert_eq!(raw_call::argument_maybe(")"), Ok((")", "")));
    assert_eq!(raw_call::argument_maybe("(a"), Ok(("(a", "")));
    assert_eq!(raw_call::argument_maybe("  "), Ok(("", "")));
    assert_eq!(raw_call::argument_maybe(" a ,b"), Ok((",b", "a")));
}

#[test]
fn sep_argument_needs_a_separator() {
    assert_eq!(raw_call::sep_argument(""), Err(ParseError::NoMatch));
    assert_eq!(raw_call::sep_argument("hi,"), Err(ParseError::NoMatch));
    assert_eq!(raw_call::sep_argument("  hi"), Err(ParseError::NoMatch));
    assert_eq!(raw_call::sep_argument(","), Ok(("", "")));
    assert_eq!(raw_call::sep_argument(" , "), Ok(("", "")));
    assert_eq!(raw_call::sep_argument(",,"), Ok((",", "")));
    assert_eq!(raw_call::sep_argument("\t(\ta\t)"), Ok((")", "a")));
    assert_eq!(raw_call::sep_argument(", \n "), Ok(("", "")));
}

#[test]
fn arguments_never_fail() {
    assert_eq!(raw_call::arguments(""), Ok(("", vec![])));
    assert_eq!(raw_call::arguments("hi"), Ok(("hi", vec![])));
    assert_eq!(raw_call::arguments("  "), Ok(("  ", vec![])));
    assert_eq!(raw_call::arguments(" x,1"), Ok((" x,1", vec![])));
    assert_eq!(raw_call::arguments(","), Ok(("", vec![""])));
    assert_eq!(raw_call::arguments(",,,"), Ok(("", vec!["", "", ""])));
    assert_eq!(raw_call::arguments("()"), Ok(("", vec!["", ""])));
    assert_eq!(raw_call::arguments(",a,b"), Ok(("", vec!["a", "b"])));
    assert_eq!(raw_call::arguments(" , a b , c "), Ok(("", vec!["a b", "c"])));
    assert_eq!(raw_call::arguments("(ä,ö)"), Ok(("", vec!["ä", "ö", ""])));
}

#[test]
fn arguments_count_the_separators() {
    for input in ["", ",", "(a)", ",a,b,c", " ( 1 , 2 ) ", ")))", "x,y", "(a(b(c"] {
        let (rest, args) = raw_call::arguments(input).unwrap();
        let taken = &input[..input.len() - rest.len()];
        let marks = taken.chars().filter(|c| ",()".contains(*c)).count();
        assert_eq!(args.len(), marks);
        assert!(input.ends_with(rest));
        for arg in args {
            assert_eq!(arg, arg.trim());
            assert!(!arg.contains(|c| ",()".contains(c)));
        }
    }
}

#[test]
fn arguments_find_nothing_the_second_time() {
    for input in ["", ",a,b", "(1) tail", " , x ", "say(2)", ",a\n,b\n"] {
        let (rest, _) = raw_call::arguments(input).unwrap();
        assert_eq!(raw_call::arguments(rest), Ok((rest, vec![])));
    }
}

#[test]
fn call_name_takes_letters_and_digits() {
    assert_eq!(raw_call::call_name(""), Err(ParseError::NoMatch));
    assert_eq!(raw_call::call_name("2abc"), Ok(("", "2abc")));
    assert_eq!(raw_call::call_name("abc def"), Ok((" def", "abc")));
    assert_eq!(raw_call::call_name("Say_it"), Ok(("_it", "Say")));
    assert_eq!(raw_call::call_name("AZaz09!"), Ok(("!", "AZaz09")));
    assert_eq!(raw_call::call_name("fée"), Ok(("ée", "f")));
    assert_eq!(raw_call::call_name("_a"), Err(ParseError::NoMatch));
    assert_eq!(raw_call::call_name(" a"), Err(ParseError::NoMatch));
    assert_eq!(raw_call::call_name("(a)"), Err(ParseError::NoMatch));
    assert_eq!(raw_call::call_name("é"), Err(ParseError::NoMatch));
    assert_eq!(raw_call::call_name("٣"), Err(ParseError::NoMatch));
}

#[test]
fn call_fails_without_a_name() {
    assert_eq!(raw_call::call(""), Err(ParseError::NoMatch));
    assert_eq!(raw_call::call("(2)"), Err(ParseError::NoMatch));
    assert_eq!(raw_call::call(" say(2)"), Err(ParseError::NoMatch));
    assert_eq!(raw_call::call(",say"), Err(ParseError::NoMatch));
}

#[test]
fn call_leaves_what_it_does_not_read() {
    assert_eq!(
        raw_call::call("say 2"),
        Ok((" 2", RawCall { name: "say", args: vec![] }))
    );
    assert_eq!(
        raw_call::call("say_it(2)"),
        Ok(("_it(2)", RawCall { name: "say", args: vec![] }))
    );
    assert_eq!(
        raw_call::call("say(2) now"),
        Ok(("", RawCall { name: "say", args: vec!["2", "now"] }))
    );
    assert_eq!(
        raw_call::call("text(gray,0,114,3)\nnext"),
        Ok(("", RawCall { name: "text", args: vec!["gray", "0", "114", "3", "next"] }))
    );
    assert_eq!(
        raw_call::call("delay ( 15 ) "),
        Ok(("", RawCall { name: "delay", args: vec!["15", ""] }))
    );
}

#[test]
fn call_on_its_own_rest_is_call_on_a_copy() {
    for input in ["say(2)", "say 2", "a-b,c", "endtext", "x1 y2(3)", "f)g"] {
        let (rest, _) = raw_call::call(input).unwrap();
        let fresh = String::from(rest);
        let again = raw_call::call(rest);
        let anew = raw_call::call(&fresh);
        assert_eq!(again, anew);
        assert_eq!(raw_call::arguments(rest), Ok((rest, vec![])));
        assert_eq!(raw_call::call(input), raw_call::call(input));
    }
}

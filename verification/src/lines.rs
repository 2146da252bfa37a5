//! What a line means: it is read as it is written, and neither blanks around it nor the case of
//! its letters matter.

use vstd::prelude::*;
use crate::foundations::law_words;
use crate::model::{
    awg_response, channel_index, channel_response, digital_key, digital_response, names_channel,
    parsed, plain_response, response, trigger_response, Answer, Request, Scope,
};
use crate::number::{digit_value, read_digits, read_signed, read_unsigned};
use crate::scpi::{FloatArg, ScpiState};
use crate::text::{
    is_blank, lemma_run, lemma_run_is, lemma_trailing, run_length, trailing_blanks, trimmed,
    upper_char, uppercase, words, CharClass,
};

verus! {

// ---------------------------------------------------------------------------
// Blanks

/// Blanks at the front of a text do not count for its words.
proof fn lemma_words_skip_blanks(s: Seq<char>)
    ensures
        words(s.skip(run_length(s, CharClass::Blank) as int)) == words(s),
{
    lemma_run(s, CharClass::Blank);
    let t = s.skip(run_length(s, CharClass::Blank) as int);
    lemma_run_is(t, CharClass::Blank, 0);
    assert(t.skip(0) == t);
}

/// A blank at the end of a text does not count for its words.
proof fn lemma_words_push_blank(s: Seq<char>, b: char)
    requires
        is_blank(b),
    ensures
        words(s.push(b)) == words(s),
    decreases s.len(),
{
    let r = s.push(b);
    let n = run_length(s, CharClass::Blank);
    lemma_run(s, CharClass::Blank);
    if n == s.len() {
        lemma_run_is(r, CharClass::Blank, r.len());
    } else {
        assert(r[n as int] == s[n as int]);
        lemma_run_is(r, CharClass::Blank, n);
        let t = s.skip(n as int);
        let u = r.skip(n as int);
        assert(u == t.push(b));
        let m = run_length(t, CharClass::Word);
        lemma_run(t, CharClass::Word);
        assert forall|i: int| 0 <= i < m implies CharClass::Word.has(#[trigger] u[i]) by {
            assert(u[i] == t[i]);
        }
        lemma_run_is(u, CharClass::Word, m);
        assert(t[0] == s[n as int]);
        assert(m > 0);
        assert(u.take(m as int) == t.take(m as int));
        assert(u.skip(m as int) == t.skip(m as int).push(b));
        lemma_words_push_blank(t.skip(m as int), b);
    }
}

/// Blanks at the end of a text do not count for its words.
proof fn lemma_words_drop_trailing(s: Seq<char>)
    ensures
        words(s.take(s.len() - trailing_blanks(s))) == words(s),
    decreases s.len(),
{
    if s.len() > 0 && is_blank(s.last()) {
        let t = s.drop_last();
        lemma_words_drop_trailing(t);
        lemma_words_push_blank(t, s.last());
        assert(t.push(s.last()) == s);
        lemma_trailing(t);
        assert(s.take(s.len() - trailing_blanks(s)) == t.take(t.len() - trailing_blanks(t)));
    } else {
        assert(s.take(s.len() as int) == s);
    }
}

/// Blanks around a line do not change its meaning, and a line means something unless it is
/// nothing but blanks.
pub proof fn law_blanks_around_a_line_do_not_matter(line: Seq<char>)
    ensures
        parsed(trimmed(line)) == parsed(line),
        parsed(line) is Some == (trimmed(line).len() > 0),
{
    let t = line.skip(run_length(line, CharClass::Blank) as int);
    lemma_run(line, CharClass::Blank);
    lemma_words_skip_blanks(line);
    lemma_words_drop_trailing(t);
    lemma_trailing(t);
    if t.len() > 0 {
        assert(t[0] == line[run_length(line, CharClass::Blank) as int]);
        if trailing_blanks(t) == t.len() {
            assert(is_blank(t[0]));
        }
    }
}

// ---------------------------------------------------------------------------
// Parts

/// Whether a text is one word.
pub open spec fn is_word(s: Seq<char>) -> bool {
    s.len() > 0 && forall|i: int| 0 <= i < s.len() ==> !is_blank(#[trigger] s[i])
}

/// A word and what follows it after a space.
proof fn lemma_first_word(word: Seq<char>, rest: Seq<char>)
    requires
        is_word(word),
    ensures
        words(word + seq![' '] + rest) == seq![word] + words(rest),
{
    let s = word + seq![' '] + rest;
    assert(s[0] == word[0]);
    lemma_run_is(s, CharClass::Blank, 0);
    assert(s.skip(0) == s);
    assert forall|i: int| 0 <= i < word.len() implies CharClass::Word.has(#[trigger] s[i]) by {
        assert(s[i] == word[i]);
    }
    assert(s[word.len() as int] == ' ');
    lemma_run_is(s, CharClass::Word, word.len());
    assert(s.take(word.len() as int) == word);
    let tail = s.skip(word.len() as int);
    assert(words(s) == seq![word] + words(tail));
    lemma_words_skip_blanks(rest);
    lemma_run(rest, CharClass::Blank);
    let n = run_length(rest, CharClass::Blank);
    assert(tail == seq![' '] + rest);
    assert(tail.skip(1) == rest);
    assert(run_length(tail, CharClass::Blank) == n + 1);
    assert(tail.skip((n + 1) as int) == rest.skip(n as int));
    lemma_words_skip_blanks(tail);
}

/// A single word.
pub proof fn lemma_one_word(word: Seq<char>)
    requires
        is_word(word),
    ensures
        words(word) == seq![word],
{
    lemma_run_is(word, CharClass::Blank, 0);
    assert(word.skip(0) == word);
    lemma_run_is(word, CharClass::Word, word.len());
    assert(word.take(word.len() as int) == word);
    let tail = word.skip(word.len() as int);
    assert(tail.len() == 0);
    assert(tail.skip(0) == tail);
    assert(words(tail) == Seq::<Seq<char>>::empty());
}

/// How the first word of a line is read that is made of a subject and a command.
proof fn lemma_head(subject: Seq<char>, rest: Seq<char>)
    requires
        subject.len() > 0,
        !subject.contains(':'),
    ensures
        ({
            let head = subject + seq![':'] + rest;
            &&& run_length(head, CharClass::Colon) == 0
            &&& head.skip(0) == head
            &&& run_length(head, CharClass::NotColon) == subject.len()
            &&& head.take(subject.len() as int) == subject
            &&& head.skip(subject.len() as int + 1) == rest
        }),
{
    let head = subject + seq![':'] + rest;
    assert forall|i: int| 0 <= i < subject.len() implies head[i] != ':' by {
        assert(head[i] == subject[i]);
        assert(subject.contains(subject[i]));
    }
    assert(head[0] != ':');
    lemma_run_is(head, CharClass::Colon, 0);
    assert(head[subject.len() as int] == ':');
    lemma_run_is(head, CharClass::NotColon, subject.len());
    assert(head.take(subject.len() as int) == subject);
    assert(head.skip(subject.len() as int + 1) == rest);
}

/// A setting is read as it is written: subject, colon, command, space and value.
pub proof fn law_setting_line(subject: Seq<char>, command: Seq<char>, arg: Seq<char>)
    requires
        is_word(subject),
        !subject.contains(':'),
        is_word(command),
        command.last() != '?',
        is_word(arg),
    ensures
        parsed(subject + seq![':'] + command + seq![' '] + arg) == Some(
            Request {
                subject: Some(subject),
                command: uppercase(command),
                is_query: false,
                args: seq![arg],
            },
        ),
{
    let head = subject + seq![':'] + command;
    lemma_joined_word(subject, command);
    lemma_first_word(head, arg);
    lemma_one_word(arg);
    let all = words(head + seq![' '] + arg);
    assert(all.skip(1) == seq![arg]);
    lemma_head(subject, command);
}

/// A query is read as it is written: subject, colon, command and question mark.
pub proof fn law_query_line(subject: Seq<char>, command: Seq<char>)
    requires
        is_word(subject),
        !subject.contains(':'),
        is_word(command),
    ensures
        parsed(subject + seq![':'] + command + seq!['?']) == Some(
            Request {
                subject: Some(subject),
                command: uppercase(command),
                is_query: true,
                args: seq![],
            },
        ),
{
    let asked = command + seq!['?'];
    assert(is_word(asked));
    let head = subject + seq![':'] + asked;
    assert(subject + seq![':'] + command + seq!['?'] == head);
    lemma_joined_word(subject, asked);
    lemma_one_word(head);
    assert(words(head).skip(1) == Seq::<Seq<char>>::empty());
    lemma_head(subject, asked);
    assert(asked.drop_last() == command);
}

/// Two words with a colon between them are one word.
proof fn lemma_joined_word(a: Seq<char>, b: Seq<char>)
    requires
        is_word(a),
        is_word(b),
    ensures
        is_word(a + seq![':'] + b),
{
    let s = a + seq![':'] + b;
    assert forall|i: int| 0 <= i < s.len() implies !is_blank(#[trigger] s[i]) by {
        if i < a.len() {
            assert(s[i] == a[i]);
        } else if i > a.len() {
            assert(s[i] == b[i - a.len() - 1]);
        }
    }
}

/// A line without a subject is read as it is written, as a setting and as a query.
pub proof fn law_plain_lines(command: Seq<char>, arg: Seq<char>)
    requires
        is_word(command),
        !command.contains(':'),
        command.last() != '?',
        is_word(arg),
    ensures
        parsed(command + seq![' '] + arg) == Some(
            Request {
                subject: None,
                command: uppercase(command),
                is_query: false,
                args: seq![arg],
            },
        ),
        parsed(command) == Some(
            Request { subject: None, command: uppercase(command), is_query: false, args: seq![] },
        ),
        parsed(command + seq!['?']) == Some(
            Request { subject: None, command: uppercase(command), is_query: true, args: seq![] },
        ),
{
    let asked = command + seq!['?'];
    assert(is_word(asked));
    assert forall|i: int| 0 <= i < command.len() implies command[i] != ':' by {
        assert(command.contains(command[i]));
    }
    assert forall|i: int| 0 <= i < asked.len() implies asked[i] != ':' by {
        if i < command.len() {
            assert(asked[i] == command[i]);
        }
    }
    lemma_first_word(command, arg);
    lemma_one_word(arg);
    lemma_one_word(command);
    lemma_one_word(asked);
    assert((seq![command] + seq![arg]).skip(1) == seq![arg]);
    assert(seq![command].skip(1) == Seq::<Seq<char>>::empty());
    assert(seq![asked].skip(1) == Seq::<Seq<char>>::empty());
    lemma_run_is(command, CharClass::Colon, 0);
    lemma_run_is(asked, CharClass::Colon, 0);
    assert(command.skip(0) == command);
    assert(asked.skip(0) == asked);
    lemma_run_is(command, CharClass::NotColon, command.len());
    lemma_run_is(asked, CharClass::NotColon, asked.len());
    assert(asked.drop_last() == command);
}

// ---------------------------------------------------------------------------
// Letters

/// The texts in upper case.
pub open spec fn all_upper(parts: Seq<Seq<char>>) -> Seq<Seq<char>> {
    Seq::new(parts.len(), |i: int| uppercase(parts[i]))
}

/// The command with its texts in upper case.
pub open spec fn upper_request(request: Request) -> Request {
    Request {
        subject: match request.subject {
            Some(subject) => Some(uppercase(subject)),
            None => None,
        },
        command: uppercase(request.command),
        is_query: request.is_query,
        args: all_upper(request.args),
    }
}

/// Two outcomes that agree but for the words in which a command is refused.
pub open spec fn same_outcome(a: (Answer, Scope), b: (Answer, Scope)) -> bool {
    &&& a.1 == b.1
    &&& a.0 == b.0 || (a.0 is Refused && b.0 is Refused)
}

/// Upper case is kept, and does not change the class of a character.
proof fn lemma_upper_char(c: char)
    ensures
        upper_char(upper_char(c)) == upper_char(c),
        forall|class: CharClass| #[trigger] class.has(upper_char(c)) == class.has(c),
        (upper_char(c) == '?') == (c == '?'),
{
}

/// Upper case is kept.
proof fn lemma_upper_twice(s: Seq<char>)
    ensures
        uppercase(uppercase(s)) == uppercase(s),
{
    assert forall|i: int| 0 <= i < s.len() implies uppercase(uppercase(s))[i] == uppercase(
        s,
    )[i] by {
        lemma_upper_char(s[i]);
    }
}

proof fn lemma_upper_run(s: Seq<char>, class: CharClass)
    ensures
        run_length(uppercase(s), class) == run_length(s, class),
{
    lemma_run(s, class);
    let n = run_length(s, class);
    let u = uppercase(s);
    assert forall|i: int| 0 <= i < n implies class.has(#[trigger] u[i]) by {
        lemma_upper_char(s[i]);
        assert(class.has(s[i]));
    }
    if n < s.len() {
        lemma_upper_char(s[n as int]);
    }
    lemma_run_is(u, class, n);
}

proof fn lemma_upper_parts(s: Seq<char>, n: int)
    requires
        0 <= n <= s.len(),
    ensures
        uppercase(s).skip(n) == uppercase(s.skip(n)),
        uppercase(s).take(n) == uppercase(s.take(n)),
{
}

proof fn lemma_upper_words(s: Seq<char>)
    ensures
        words(uppercase(s)) == all_upper(words(s)),
    decreases s.len(),
{
    let n = run_length(s, CharClass::Blank) as int;
    lemma_run(s, CharClass::Blank);
    lemma_upper_run(s, CharClass::Blank);
    lemma_upper_parts(s, n);
    let t = s.skip(n);
    let m = run_length(t, CharClass::Word) as int;
    lemma_run(t, CharClass::Word);
    lemma_upper_run(t, CharClass::Word);
    lemma_upper_parts(t, m);
    if t.len() == 0 {
        assert(words(uppercase(s)) == all_upper(words(s)));
    } else {
        assert(t[0] == s[n]);
        assert(m > 0);
        lemma_upper_words(t.skip(m));
        assert(words(s) == seq![t.take(m)] + words(t.skip(m)));
        assert(words(uppercase(s)) == seq![uppercase(t.take(m))] + all_upper(words(t.skip(m))));
        assert(words(uppercase(s)) == all_upper(words(s)));
    }
}

/// A line in upper case holds the same command, with its texts in upper case.
proof fn lemma_upper_parsed(line: Seq<char>)
    ensures
        parsed(line) is None ==> parsed(uppercase(line)) is None,
        parsed(line) matches Some(request) ==> parsed(uppercase(line)) == Some(
            upper_request(request),
        ) && request.command == uppercase(request.command),
{
    lemma_upper_words(line);
    let all = words(line);
    if all.len() > 0 {
        let first = all[0];
        let n = run_length(first, CharClass::Colon) as int;
        lemma_run(first, CharClass::Colon);
        lemma_upper_run(first, CharClass::Colon);
        lemma_upper_parts(first, n);
        let head = first.skip(n);
        let colon = run_length(head, CharClass::NotColon) as int;
        lemma_run(head, CharClass::NotColon);
        lemma_upper_run(head, CharClass::NotColon);
        lemma_upper_parts(head, colon);
        let raw = if colon < head.len() {
            lemma_upper_parts(head, colon + 1);
            head.skip(colon + 1)
        } else {
            head
        };
        assert(uppercase(first) == all_upper(all)[0]);
        assert(uppercase(Seq::<char>::empty()) == Seq::<char>::empty());
        if raw.len() > 0 {
            lemma_upper_char(raw.last());
            assert(uppercase(raw).drop_last() == uppercase(raw.drop_last()));
            lemma_upper_twice(raw.drop_last());
        }
        lemma_upper_twice(raw);
        assert(all_upper(all).skip(1) == all_upper(all.skip(1)));
    }
}

proof fn lemma_upper_digits(s: Seq<char>, acc: nat, max: nat)
    ensures
        read_digits(uppercase(s), acc, max) == read_digits(s, acc, max),
    decreases s.len(),
{
    if s.len() > 0 {
        lemma_upper_char(s[0]);
        assert(CharClass::Digit.has(upper_char(s[0])) == CharClass::Digit.has(s[0]));
        lemma_upper_parts(s, 1);
        lemma_upper_digits(s.skip(1), acc * 10 + digit_value(s[0]), max);
    }
}

/// Numbers read the same in upper case.
proof fn lemma_upper_numbers(s: Seq<char>, max: nat)
    ensures
        read_unsigned(uppercase(s), max) == read_unsigned(s, max),
        read_signed(uppercase(s)) == read_signed(s),
{
    lemma_upper_digits(s, 0, max);
    lemma_upper_digits(s, 0, 0x7fff_ffff_ffff_ffff);
    if s.len() > 0 {
        lemma_upper_parts(s, 1);
        lemma_upper_digits(s.skip(1), 0, max);
        lemma_upper_digits(s.skip(1), 0, 0x8000_0000_0000_0000);
        lemma_upper_digits(s.skip(1), 0, 0x7fff_ffff_ffff_ffff);
    }
}

proof fn lemma_upper_trailing(s: Seq<char>)
    ensures
        trailing_blanks(uppercase(s)) == trailing_blanks(s),
    decreases s.len(),
{
    if s.len() > 0 {
        lemma_upper_char(s.last());
        assert(CharClass::Blank.has(upper_char(s.last())) == CharClass::Blank.has(s.last()));
        lemma_upper_parts(s, s.len() - 1);
        assert(uppercase(s).drop_last() == uppercase(s.drop_last()));
        lemma_upper_trailing(s.drop_last());
    }
}

proof fn lemma_upper_trimmed(s: Seq<char>)
    ensures
        uppercase(trimmed(uppercase(s))) == uppercase(trimmed(s)),
{
    let n = run_length(s, CharClass::Blank) as int;
    lemma_run(s, CharClass::Blank);
    lemma_upper_run(s, CharClass::Blank);
    lemma_upper_parts(s, n);
    let t = s.skip(n);
    lemma_upper_trailing(t);
    lemma_trailing(t);
    lemma_upper_parts(t, t.len() - trailing_blanks(t));
    lemma_upper_twice(trimmed(s));
}

/// Channels are the same in upper case, but for the text of a refusal.
proof fn lemma_upper_channel(s: Seq<char>, limit: nat)
    ensures
        names_channel(uppercase(s)) == names_channel(s),
        digital_key(uppercase(s)) == digital_key(s),
        channel_index(uppercase(s), limit) == channel_index(s, limit) || (channel_index(
            uppercase(s),
            limit,
        ) is Err && channel_index(s, limit) is Err),
{
    lemma_upper_trimmed(s);
}

proof fn lemma_upper_trigger<S: ScpiState>(scope: Scope, request: Request, value: Option<FloatArg>)
    requires
        request.command == uppercase(request.command),
    ensures
        same_outcome(
            trigger_response::<S>(scope, upper_request(request), value),
            trigger_response::<S>(scope, request, value),
        ),
{
    if request.args.len() > 0 {
        lemma_upper_channel(request.args[0], scope.channels.len());
        lemma_upper_numbers(request.args[0], 0);
        lemma_upper_twice(request.args[0]);
    }
}

proof fn lemma_upper_analog<S: ScpiState>(
    scope: Scope,
    subject: Seq<char>,
    request: Request,
    value: Option<FloatArg>,
)
    requires
        request.command == uppercase(request.command),
    ensures
        same_outcome(
            channel_response::<S>(scope, uppercase(subject), upper_request(request), value),
            channel_response::<S>(scope, subject, request, value),
        ),
{
    lemma_upper_channel(subject, scope.channels.len());
    if request.args.len() > 0 {
        lemma_upper_numbers(request.args[0], u32::MAX as nat);
        lemma_upper_twice(request.args[0]);
    }
}

proof fn lemma_upper_awg<S: ScpiState>(scope: Scope, request: Request, value: Option<FloatArg>)
    requires
        request.command == uppercase(request.command),
    ensures
        same_outcome(
            awg_response::<S>(scope, upper_request(request), value),
            awg_response::<S>(scope, request, value),
        ),
{
    if request.args.len() > 0 {
        lemma_upper_twice(request.args[0]);
    }
}

proof fn lemma_upper_digital<S: ScpiState>(
    scope: Scope,
    key: Seq<char>,
    request: Request,
    value: Option<FloatArg>,
)
    requires
        request.command == uppercase(request.command),
    ensures
        same_outcome(
            digital_response::<S>(scope, key, upper_request(request), value),
            digital_response::<S>(scope, key, request, value),
        ),
{
}

/// A prefix may be in any case.
proof fn lemma_upper_prefixed(request: Request, prefix: Seq<char>)
    requires
        request.command == uppercase(request.command),
    ensures
        upper_request(request).prefixed(uppercase(prefix)) == upper_request(
            request.prefixed(prefix),
        ),
        upper_request(request).prefixed(prefix) == upper_request(request.prefixed(prefix)),
        request.prefixed(prefix).command == uppercase(request.prefixed(prefix).command),
{
    lemma_upper_twice(prefix);
    let full = uppercase(prefix) + seq![':'] + request.command;
    assert forall|i: int| 0 <= i < full.len() implies #[trigger] uppercase(full)[i] == full[i] by {
        if i < prefix.len() {
            lemma_upper_char(prefix[i]);
        } else if i > prefix.len() {
            assert(full[i] == request.command[i - prefix.len() - 1]);
            assert(uppercase(request.command)[i - prefix.len() - 1] == full[i]);
        }
    }
    assert(uppercase(full) == full);
}

proof fn lemma_upper_plain<S: ScpiState>(scope: Scope, request: Request, value: Option<FloatArg>)
    requires
        request.command == uppercase(request.command),
    ensures
        same_outcome(
            plain_response::<S>(scope, upper_request(request), value),
            plain_response::<S>(scope, request, value),
        ),
{
    lemma_upper_prefixed(request, "TRIG"@);
    lemma_upper_trigger::<S>(scope, request, value);
    lemma_upper_trigger::<S>(scope, request.prefixed("TRIG"@), value);
    if request.args.len() > 0 {
        lemma_upper_numbers(request.args[0], u32::MAX as nat);
        lemma_upper_numbers(request.args[0], usize::MAX as nat);
    }
}

/// The case of a line's letters does not matter: in upper case it has the same outcome, but for
/// the words in which it is refused, if it is.
pub proof fn law_case_of_a_line_does_not_matter<S: ScpiState>(
    scope: Scope,
    line: Seq<char>,
    value: Option<FloatArg>,
)
    ensures
        parsed(uppercase(line)) is Some == parsed(line) is Some,
        parsed(line) is Some ==> same_outcome(
            response::<S>(scope, parsed(uppercase(line))->0, value),
            response::<S>(scope, parsed(line)->0, value),
        ),
{
    lemma_upper_parsed(line);
    if let Some(request) = parsed(line) {
        match request.subject {
            None => lemma_upper_plain::<S>(scope, request, value),
            Some(subject) => {
                lemma_upper_channel(subject, scope.channels.len());
                lemma_upper_twice(subject);
                lemma_upper_analog::<S>(scope, subject, request, value);
                lemma_upper_awg::<S>(scope, request, value);
                if let Some(key) = digital_key(subject) {
                    lemma_upper_digital::<S>(scope, key, request, value);
                }
                lemma_upper_prefixed(request, "TRIG"@);
                lemma_upper_trigger::<S>(scope, request.prefixed("TRIG"@), value);
                lemma_upper_prefixed(request, subject);
                lemma_upper_plain::<S>(scope, request.prefixed(subject), value);
            },
        }
    }
}

// ---------------------------------------------------------------------------
// Heads

/// The first word of a line says all but the arguments, and these are the words behind it. A line
/// without words holds no command.
pub proof fn law_arguments_follow_the_head(word: Seq<char>, blank: char, rest: Seq<char>)
    requires
        is_word(word),
        is_blank(blank),
    ensures
        parsed(Seq::empty()) is None,
        parsed(seq![blank] + rest) == parsed(rest),
        parsed(word) is Some,
        parsed(word)->0.args.len() == 0,
        parsed(word + seq![blank] + rest) == Some(
            Request { args: words(rest), ..parsed(word)->0 },
        ),
{
    law_words(word, blank, rest);
    assert((seq![word] + words(rest)).skip(1) == words(rest));
    assert(seq![word].skip(1) == Seq::<Seq<char>>::empty());
}

/// Colons at the front of the first word do not count.
pub proof fn law_leading_colons(word: Seq<char>)
    requires
        is_word(word),
    ensures
        parsed(seq![':'] + word) == parsed(word),
        parsed(seq![':']) == Some(
            Request { subject: None, command: seq![], is_query: false, args: seq![] },
        ),
{
    let longer = seq![':'] + word;
    assert forall|i: int| 0 <= i < longer.len() implies !is_blank(#[trigger] longer[i]) by {
        if i > 0 {
            assert(longer[i] == word[i - 1]);
        }
    }
    lemma_one_word(word);
    lemma_one_word(longer);
    let n = run_length(word, CharClass::Colon);
    lemma_run(word, CharClass::Colon);
    assert(longer.skip(1) == word);
    assert(run_length(longer, CharClass::Colon) == n + 1);
    assert(longer.skip((n + 1) as int) == word.skip(n as int));
    assert(seq![longer].skip(1) == seq![word].skip(1));
    let alone = seq![':'];
    lemma_one_word(alone);
    lemma_run_is(alone, CharClass::Colon, 1);
    assert(alone.skip(1) == Seq::<char>::empty());
    assert(uppercase(Seq::<char>::empty()) == Seq::<char>::empty());
    assert(seq![alone].skip(1) == Seq::<Seq<char>>::empty());
}

/// The subject is what is before the first colon of a word, and the command what is behind it, in
/// upper case; without a colon all is command. A question mark at the very end of the command, and
/// only there, makes a query, and is then not a part of its name.
pub proof fn law_subject_and_command(subject: Seq<char>, raw: Seq<char>)
    requires
        is_word(subject),
        !subject.contains(':'),
        forall|i: int| 0 <= i < raw.len() ==> !is_blank(#[trigger] raw[i]),
    ensures
        ({
            let asks = raw.len() > 0 && raw.last() == '?';
            parsed(subject + seq![':'] + raw) == Some(
                Request {
                    subject: Some(subject),
                    command: uppercase(
                        if asks {
                            raw.drop_last()
                        } else {
                            raw
                        },
                    ),
                    is_query: asks,
                    args: seq![],
                },
            )
        }),
        raw.len() > 0 && !raw.contains(':') ==> {
            let asks = raw.last() == '?';
            parsed(raw) == Some(
                Request {
                    subject: None,
                    command: uppercase(
                        if asks {
                            raw.drop_last()
                        } else {
                            raw
                        },
                    ),
                    is_query: asks,
                    args: seq![],
                },
            )
        },
{
    let head = subject + seq![':'] + raw;
    assert forall|i: int| 0 <= i < head.len() implies !is_blank(#[trigger] head[i]) by {
        if i < subject.len() {
            assert(head[i] == subject[i]);
        } else if i > subject.len() {
            assert(head[i] == raw[i - subject.len() - 1]);
        }
    }
    lemma_one_word(head);
    lemma_head(subject, raw);
    assert(seq![head].skip(1) == Seq::<Seq<char>>::empty());
    if raw.len() > 0 && !raw.contains(':') {
        assert forall|i: int| 0 <= i < raw.len() implies raw[i] != ':' by {
            assert(raw.contains(raw[i]));
        }
        lemma_one_word(raw);
        lemma_run_is(raw, CharClass::Colon, 0);
        assert(raw.skip(0) == raw);
        lemma_run_is(raw, CharClass::NotColon, raw.len());
        assert(seq![raw].skip(1) == Seq::<Seq<char>>::empty());
    }
}

} // verus!

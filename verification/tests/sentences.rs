use sentence::Punctuation;
use sentence::SentenceTokenizer;
use sentence::Token;

#[test]
fn simple_sentence() {
  let sentence = "this is an example";
  assert_eq!(tokenize(sentence), vec![
    Token::Word("this".into()),
    Token::Word("is".into()),
    Token::Word("an".into()),
    Token::Word("example".into()),
  ]);
}

#[test]
fn simple_sentence_with_punctuation() {
  let sentence = "This, right here, is a sentence.";
  assert_eq!(tokenize(sentence), vec![
    Token::Word("This".into()),
    Token::Punctuation(Punctuation::Comma),
    Token::Word("right".into()),
    Token::Word("here".into()),
    Token::Punctuation(Punctuation::Comma),
    Token::Word("is".into()),
    Token::Word("a".into()),
    Token::Word("sentence".into()),
    Token::Punctuation(Punctuation::Period),
  ]);
}

#[test]
fn hyphenated_words() {
  let sentence = "Please double-check the drive-thru";
  assert_eq!(tokenize(sentence), vec![
    Token::Word("Please".into()),
    Token::HyphenatedWord("double-check".into()),
    Token::Word("the".into()),
    Token::HyphenatedWord("drive-thru".into()),
  ]);
  let sentence = "Please double-check the drive-thru - pretty-please.";
  assert_eq!(tokenize(sentence), vec![
    Token::Word("Please".into()),
    Token::HyphenatedWord("double-check".into()),
    Token::Word("the".into()),
    Token::HyphenatedWord("drive-thru".into()),
    Token::Punctuation(Punctuation::Dash),
    Token::HyphenatedWord("pretty-please".into()),
    Token::Punctuation(Punctuation::Period),
  ]);
}

#[test]
fn sentence_with_integers() {
  let sentence = "9 out of 10 agree";
  assert_eq!(tokenize(sentence), vec![
    Token::Integer("9".into()),
    Token::Word("out".into()),
    Token::Word("of".into()),
    Token::Integer("10".into()),
    Token::Word("agree".into()),
  ]);
}

#[test]
fn sentence_with_integers_and_punctuation() {
  let sentence = "1, 2, 3, 100.";
  assert_eq!(tokenize(sentence), vec![
    Token::Integer("1".into()),
    Token::Punctuation(Punctuation::Comma),
    Token::Integer("2".into()),
    Token::Punctuation(Punctuation::Comma),
    Token::Integer("3".into()),
    Token::Punctuation(Punctuation::Comma),
    Token::Integer("100".into()),
    Token::Punctuation(Punctuation::Period),
  ]);
}

#[test]
fn sentence_with_real_numbers_and_punctuation() {
  let sentence = "The total comes to 25.15.";
  assert_eq!(tokenize(sentence), vec![
    Token::Word("The".into()),
    Token::Word("total".into()),
    Token::Word("comes".into()),
    Token::Word("to".into()),
    Token::RealNumber("25.15".into()),
    Token::Punctuation(Punctuation::Period),
  ]);
}

#[test]
fn number_with_commas() {
  let sentence = "1,000,000 people have 1,234.56 points";
  assert_eq!(tokenize(sentence), vec![
    Token::CommaFormattedInteger("1,000,000".into()),
    Token::Word("people".into()),
    Token::Word("have".into()),
    Token::CommaFormattedRealNumber("1,234.56".into()),
    Token::Word("points".into()),
  ]);
}

#[test]
fn punctuation_colon() {
  // No space.
  let sentence = "one: two";
  assert_eq!(tokenize(sentence), vec![
    Token::Word("one".into()),
    Token::Punctuation(Punctuation::Colon),
    Token::Word("two".into()),
  ]);
  // With a space.
  let sentence = "one : two";
  assert_eq!(tokenize(sentence), vec![
    Token::Word("one".into()),
    Token::Punctuation(Punctuation::Colon),
    Token::Word("two".into()),
  ]);
  // At the end
  let sentence = "this:";
  assert_eq!(tokenize(sentence), vec![
    Token::Word("this".into()),
    Token::Punctuation(Punctuation::Colon),
  ]);
}

#[test]
fn punctuation_question() {
  // No space.
  let sentence = "what? no";
  assert_eq!(tokenize(sentence), vec![
    Token::Word("what".into()),
    Token::Punctuation(Punctuation::Question),
    Token::Word("no".into()),
  ]);
  // With a space.
  let sentence = "what ? no";
  assert_eq!(tokenize(sentence), vec![
    Token::Word("what".into()),
    Token::Punctuation(Punctuation::Question),
    Token::Word("no".into()),
  ]);
  // At the end.
  let sentence = "what?";
  assert_eq!(tokenize(sentence), vec![
    Token::Word("what".into()),
    Token::Punctuation(Punctuation::Question),
  ]);
  // Just question.
  let sentence = "?";
  assert_eq!(tokenize(sentence), vec![
    Token::Punctuation(Punctuation::Question),
  ]);
}

#[test]
fn punctuation_exclamation() {
  // No space.
  let sentence = "yes! that";
  assert_eq!(tokenize(sentence), vec![
    Token::Word("yes".into()),
    Token::Punctuation(Punctuation::Exclamation),
    Token::Word("that".into()),
  ]);
  // With a space.
  let sentence = "yes ! that";
  assert_eq!(tokenize(sentence), vec![
    Token::Word("yes".into()),
    Token::Punctuation(Punctuation::Exclamation),
    Token::Word("that".into()),
  ]);
  // At the end.
  let sentence = "yes!";
  assert_eq!(tokenize(sentence), vec![
    Token::Word("yes".into()),
    Token::Punctuation(Punctuation::Exclamation),
  ]);
}

#[test]
fn punctuation_semicolon() {
  // No space.
  let sentence = "one; two";
  assert_eq!(tokenize(sentence), vec![
    Token::Word("one".into()),
    Token::Punctuation(Punctuation::Semicolon),
    Token::Word("two".into()),
  ]);
  // With a space.
  let sentence = "one ; two";
  assert_eq!(tokenize(sentence), vec![
    Token::Word("one".into()),
    Token::Punctuation(Punctuation::Semicolon),
    Token::Word("two".into()),
  ]);
  // At the end.
  let sentence = "one;";
  assert_eq!(tokenize(sentence), vec![
    Token::Word("one".into()),
    Token::Punctuation(Punctuation::Semicolon),
  ]);
}

#[test]
fn punctuation_dash() {
  // Single space.
  let sentence = "but- no";
  assert_eq!(tokenize(sentence), vec![
    Token::Word("but".into()),
    Token::Punctuation(Punctuation::Dash),
    Token::Word("no".into()),
  ]);
  // With a space.
  let sentence = "but - no";
  assert_eq!(tokenize(sentence), vec![
    Token::Word("but".into()),
    Token::Punctuation(Punctuation::Dash),
    Token::Word("no".into()),
  ]);
  // At the end.
  let sentence = "but-";
  assert_eq!(tokenize(sentence), vec![
    Token::Word("but".into()),
    Token::Punctuation(Punctuation::Dash),
  ]);

  // TODO: Intra-word is not supported.
  //  I want to work on dictionary lookup before adding it.
}

#[test]
fn urls() {
  let sentence = "Go to https://google.com";
  assert_eq!(tokenize(sentence), vec![
    Token::Word("Go".into()),
    Token::Word("to".into()),
    Token::Url("https://google.com".into()),
  ]);
  let sentence = "Go to https://www.google.com.";
  assert_eq!(tokenize(sentence), vec![
    Token::Word("Go".into()),
    Token::Word("to".into()),
    Token::Url("https://www.google.com".into()),
    Token::Punctuation(Punctuation::Period),
  ]);
  let sentence = "My website is http://127.0.0.1";
  assert_eq!(tokenize(sentence), vec![
    Token::Word("My".into()),
    Token::Word("website".into()),
    Token::Word("is".into()),
    Token::Url("http://127.0.0.1".into()),
  ]);
  let sentence = "My website is http://127.0.0.1/my/page.html?foo=bar&bin=baz#hah";
  assert_eq!(tokenize(sentence), vec![
    Token::Word("My".into()),
    Token::Word("website".into()),
    Token::Word("is".into()),
    Token::Url("http://127.0.0.1/my/page.html?foo=bar&bin=baz#hah".into()),
  ]);
}

#[test]
fn hashtags() {
  let sentence = "#hashtag";
  assert_eq!(tokenize(sentence), vec![
    Token::Hashtag("#hashtag".into()),
  ]);
  let sentence = "This is #rust #awesomeness!";
  assert_eq!(tokenize(sentence), vec![
    Token::Word("This".into()),
    Token::Word("is".into()),
    Token::Hashtag("#rust".into()),
    Token::Hashtag("#awesomeness".into()),
    Token::Punctuation(Punctuation::Exclamation),
  ]);
}

#[test]
fn usernames() {
  let sentence = "@echelon";
  assert_eq!(tokenize(sentence), vec![
    Token::UsernameMention("@echelon".into()),
  ]);
  let sentence = "The author is @echelon.";
  assert_eq!(tokenize(sentence), vec![
    Token::Word("The".into()),
    Token::Word("author".into()),
    Token::Word("is".into()),
    Token::UsernameMention("@echelon".into()),
    Token::Punctuation(Punctuation::Period),
  ]);
}

#[test]
fn empty_strings() {
  // Empty.
  let sentence = "";
  assert_eq!(tokenize(sentence), vec![]);
  // Just space.
  let sentence = "  ";
  assert_eq!(tokenize(sentence), vec![]);
  // Just tabs.
  let sentence = "\t\t";
  assert_eq!(tokenize(sentence), vec![]);
  // Just newlines.
  let sentence = "\n\n\n";
  assert_eq!(tokenize(sentence), vec![]);
  // Mix.
  let sentence = "\n \t \n";
  assert_eq!(tokenize(sentence), vec![]);
}

#[test]
fn not_yet_supported_but_ensure_no_infinite_loop() {
  let _ = tokenize(".");
  let _ = tokenize("...");
  let _ = tokenize(". . .");
  let _ = tokenize("yes!!!!!");
  let _ = tokenize("yes!!!!1??");
  let _ = tokenize("iOHuijahdfkjq2nero88u928nkjwfn  qio23u980HjkH@!J#Kj1j 1j4o2o");
  let _ = tokenize("dashes--emdash");
  let _ = tokenize("This does not work!?");
  let _ = tokenize("haven't, how're, she'll, isn't, it'll, it'd, donald's");
  let _ = tokenize("might've, they'd, weren't, o'neill's, o'grady's");
  let _ = tokenize("'nuff, 'em, o'clock, will-o'-the-wisp");
  let _ = tokenize("I'm sorry you can't do it.");
  let _ = tokenize("That is \"good\" enough");
}

fn tokenize(sentence: &str) -> Vec<Token> {
  let tokenizer = SentenceTokenizer::new();
  tokenizer.tokenize(sentence)
}

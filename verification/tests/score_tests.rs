use passacaglia::score::render_score;

#[test]
fn score_wraps_the_two_staves() {
    let s = render_score(80, "settings", "{ c4 }", "{ g4 }");
    let expected = "\\version \"2.24.1\"\n\
% generated by passacaglia\n\
% settings\n\
\\score {\n\
\\new PianoStaff <<\n\
\\new Staff {\n\
\\tempo 4 = 80\n\
\\clef treble\n\
\\key c \\major\n\
\\time 4/4\n\
{ c4 }\n\
\\fine\n\
}\n\
\\new Staff {\n\
\\clef bass\n\
\\key c \\major\n\
\\time 4/4\n\
{ g4 }\n\
\\fine\n\
}\n\
>>\n\
\\layout {}\n\
\\midi {}\n\
}";
    assert_eq!(s, expected);
}

#[test]
fn score_echoes_the_tempo() {
    let s = render_score(123, "", "", "");
    assert!(s.contains("\\tempo 4 = 123\n"));
}

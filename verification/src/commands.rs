//! The fixed-text commands: the gospel message in three languages, and
//! the help line. Metrics and per-user configuration are the caller's
//! concern; these functions only produce the reply text.

use vstd::prelude::*;
use vstd::string::*;

use crate::strutil::{replace_all, replace_all_spec};

verus! {

/// The gospel reply, in English.
pub open spec fn gospel_text() -> Seq<char> {
    "Gospel means good news! The bad news is we have all sinned and deserve the wrath to come. But Jesus the Messiah died for our sins, was buried, and then raised on the third day, according to the scriptures. He ascended into heaven and right now is seated at the Father's right hand. Jesus said, \"I am the way, and the truth, and the life. No one comes to the Father except through me. The time is fulfilled, and the kingdom of God is at hand; repent and believe in the gospel.\""@
}

/// The gospel reply, in Spanish.
pub open spec fn evangelio_text() -> Seq<char> {
    "El evangelio significa buenas nuevas! La mala noticia es que todos hemos pecado y merecemos la ira venidera. Pero Jesus, el Mesias, murio por nuestros pecados, fue sepultado y resucito al tercer dia segun las Escrituras. Ascendio a los cielos y esta sentado a la diestra del Padre. Jesus dijo: \"Yo soy el camino, la verdad y la vida. Nadie viene al Padre sino por mi. El tiempo se ha cumplido, y el reino de Dios se ha acercado; arrepentios y creed en el evangelio\"."@
}

/// The gospel reply, in German.
pub open spec fn evangelium_text() -> Seq<char> {
    "Evangelium bedeutet Gute Nachricht! Die schlechte Nachricht ist, wir haben alle gesundigt und verdienen Gottes Zorn. Doch Jesus Christus starb fur unsere Sunden, wurde begraben und am dritten Tag auferweckt, nach der Bibel. Er fuhr in den Himmel auf und sitzt jetzt zur Rechten des Vaters. Jesus sagt: \"Ich bin der Weg, die Wahrheit und das Leben; niemand kommt zum Vater ausser durch mich.\" Die Zeit ist reif und das Reich Gottes ist nahe; kehrt um und glaubt an das Evangelium."@
}

/// The help reply before the prefix substitution and the translation
/// list.
pub open spec fn help_text() -> Seq<char> {
    "Help: Lookup scripture by typing: gen 1:1 or 2 tim 3:16-17 nkjv. Commands: !joinchannel, !translation, !votd, !next, !random, !previous, !leavechannel, !myinfo, !channelinfo, !support, !status, !commandprefix, !setvotd, !gospel, !evangelio, !evangelium, gospel message. Available translations:"@
}

/// The gospel reply for `display_name`'s channel, in English.
pub fn gospel(display_name: &str) -> (r: Option<String>)
    ensures
        r matches Some(t) && t@ == gospel_text(),
{
    let _ = display_name;
    Some(
        String::from_str(
            "Gospel means good news! The bad news is we have all sinned and deserve the wrath to come. But Jesus the Messiah died for our sins, was buried, and then raised on the third day, according to the scriptures. He ascended into heaven and right now is seated at the Father's right hand. Jesus said, \"I am the way, and the truth, and the life. No one comes to the Father except through me. The time is fulfilled, and the kingdom of God is at hand; repent and believe in the gospel.\"",
        ),
    )
}

/// The gospel reply for `display_name`'s channel, in Spanish.
pub fn evangelio(display_name: &str) -> (r: Option<String>)
    ensures
        r matches Some(t) && t@ == evangelio_text(),
{
    let _ = display_name;
    Some(
        String::from_str(
            "El evangelio significa buenas nuevas! La mala noticia es que todos hemos pecado y merecemos la ira venidera. Pero Jesus, el Mesias, murio por nuestros pecados, fue sepultado y resucito al tercer dia segun las Escrituras. Ascendio a los cielos y esta sentado a la diestra del Padre. Jesus dijo: \"Yo soy el camino, la verdad y la vida. Nadie viene al Padre sino por mi. El tiempo se ha cumplido, y el reino de Dios se ha acercado; arrepentios y creed en el evangelio\".",
        ),
    )
}

/// The gospel reply for `display_name`'s channel, in German.
pub fn evangelium(display_name: &str) -> (r: Option<String>)
    ensures
        r matches Some(t) && t@ == evangelium_text(),
{
    let _ = display_name;
    Some(
        String::from_str(
            "Evangelium bedeutet Gute Nachricht! Die schlechte Nachricht ist, wir haben alle gesundigt und verdienen Gottes Zorn. Doch Jesus Christus starb fur unsere Sunden, wurde begraben und am dritten Tag auferweckt, nach der Bibel. Er fuhr in den Himmel auf und sitzt jetzt zur Rechten des Vaters. Jesus sagt: \"Ich bin der Weg, die Wahrheit und das Leben; niemand kommt zum Vater ausser durch mich.\" Die Zeit ist reif und das Reich Gottes ist nahe; kehrt um und glaubt an das Evangelium.",
        ),
    )
}

/// Relies on char::to_string (through ToString): a string of exactly this
/// one character.
#[verifier::external_body]
fn char_to_string(c: char) -> (r: String)
    ensures
        r@ == seq![c],
{
    c.to_string()
}

/// The help reply: the command list with `prefix` in place of `!`,
/// followed by the available translations.
pub fn help(available_bibles: impl Fn() -> String, prefix: &char) -> (r: Option<String>)
    requires
        call_requires(available_bibles, ()),
    ensures
        r matches Some(t) && exists|b: String|
            #[trigger] call_ensures(available_bibles, (), b) && t@ == replace_all_spec(
                help_text(),
                "!"@,
                seq![*prefix],
            ) + " "@ + b@,
{
    proof {
        reveal_strlit("!");
        assert("!"@.len() == 1);
    }
    let pc = char_to_string(*prefix);
    let mut out = replace_all(
        "Help: Lookup scripture by typing: gen 1:1 or 2 tim 3:16-17 nkjv. Commands: !joinchannel, !translation, !votd, !next, !random, !previous, !leavechannel, !myinfo, !channelinfo, !support, !status, !commandprefix, !setvotd, !gospel, !evangelio, !evangelium, gospel message. Available translations:",
        "!",
        pc.as_str(),
    );
    out.append(" ");
    let bibles = available_bibles();
    out.append(bibles.as_str());
    proof {
        assert(pc@ =~= seq![*prefix]);
        assert(out@ =~= replace_all_spec(help_text(), "!"@, seq![*prefix]) + " "@ + bibles@);
    }
    Some(out)
}

/// The prefix commands answer to unless a channel chose another.
pub fn default_command_prefix() -> (r: Option<char>)
    ensures
        r == Some('!'),
{
    Some('!')
}

} // verus!

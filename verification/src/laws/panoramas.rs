//! The panoramas and the splash texts.

use vstd::prelude::*;
use vstd::utf8;

use crate::modules::panorama;
use crate::modules::panorama::{FaceError, PanoramaError};
use crate::resources;
use crate::resources::{ResourceError, RgbaImage};
use crate::splash;
use crate::splash::SplashError;
use crate::text;

verus! {

/// How the file of a face is called: the layers right, left, top, bottom, front and back are held by
/// the files 1, 3, 4, 5, 0 and 2.
pub open spec fn file_of(layer: usize) -> Seq<char> {
    match layer {
        0usize => "/panorama_1.png"@,
        1usize => "/panorama_3.png"@,
        2usize => "/panorama_4.png"@,
        3usize => "/panorama_5.png"@,
        4usize => "/panorama_0.png"@,
        _ => "/panorama_2.png"@,
    }
}

/// Each layer of a panorama is held by its own file in the directory of the panorama.
pub proof fn lemma_each_layer_has_its_file(panorama: &str, layer: usize, name: String)
    requires
        layer < 6,
        call_ensures(panorama::face_resource, (panorama, layer), name),
    ensures
        name@ == "panoramas/"@ + panorama@ + file_of(layer),
{
    reveal_strlit("/panorama_");
    reveal_strlit(".png");
    reveal_strlit("/panorama_0.png");
    reveal_strlit("/panorama_1.png");
    reveal_strlit("/panorama_2.png");
    reveal_strlit("/panorama_3.png");
    reveal_strlit("/panorama_4.png");
    reveal_strlit("/panorama_5.png");
    let number = text::decimal_text(panorama::source_face(layer as int));
    assert("/panorama_"@ + number + ".png"@ =~= file_of(layer));
    assert(name@ =~= "panoramas/"@ + panorama@ + ("/panorama_"@ + number + ".png"@));
}

/// The faces of a panorama are the images of its six files, each of 1024 by 1024 pixels, in the order
/// of the layers. The first that cannot be loaded is blamed by its file.
pub proof fn lemma_a_face_is_the_image_of_its_file(
    archive: &[u8],
    panorama: &str,
    layer: usize,
    name: String,
    file: &str,
    image: Result<RgbaImage, ResourceError>,
    faces: Result<Vec<RgbaImage>, FaceError>,
)
    requires
        layer < 6,
        call_ensures(panorama::face_resource, (panorama, layer), name),
        file@ == name@,
        call_ensures(resources::load_sized_png, (archive, file, 1_024, 1_024), image),
        call_ensures(panorama::load_faces, (archive, panorama), faces),
    ensures
        faces is Ok ==> faces->Ok_0@.len() == 6 && image is Ok && faces->Ok_0@[layer as int]@
            == image->Ok_0@,
        faces is Err ==> faces->Err_0.layer < 6,
        faces is Err && faces->Err_0.layer == layer ==> image is Err && faces->Err_0.resource@
            == file@,
        faces is Err && layer < faces->Err_0.layer ==> image is Ok,
{
    if faces is Ok {
        assert(panorama::loads_face(
            archive@,
            panorama@,
            layer as int,
            Ok(faces->Ok_0@[layer as int]),
        ));
    }
    if faces is Err && layer < faces->Err_0.layer {
        assert(panorama::has_face(archive@, panorama@, layer as int));
    }
}

/// Every line of the list names a panorama, without the white space around it and in order; a line
/// of white space names none.
pub proof fn lemma_every_line_names_a_panorama(
    list: &str,
    longer: &str,
    line: Vec<char>,
    name: Vec<char>,
    names: Vec<String>,
    more: Vec<String>,
)
    requires
        text::lines(longer@) == text::lines(list@).push(line@),
        call_ensures(text::trim, (&line,), name),
        call_ensures(panorama::panorama_names, (list,), Ok::<Vec<String>, PanoramaError>(names)),
        call_ensures(panorama::panorama_names, (longer,), Ok::<Vec<String>, PanoramaError>(more)),
    ensures
        name@.len() == 0 ==> more@.len() == names@.len(),
        name@.len() > 0 ==> more@.len() == names@.len() + 1 && more@[names@.len() as int]@ == name@,
        forall|i: int| 0 <= i < names@.len() ==> (#[trigger] more@[i])@ == names@[i]@,
        names@.len() > 0,
{
    let lines = text::lines(list@);
    assert(lines.push(line@).drop_last() == lines);
    let before = names@.map_values(|name: String| name@);
    let after = more@.map_values(|name: String| name@);
    assert(before.len() == names@.len() && after.len() == more@.len());
    assert(before == panorama::names_of(lines));
    assert(after == panorama::names_of(lines.push(line@)));
    assert forall|i: int| 0 <= i < names@.len() implies (#[trigger] more@[i])@ == names@[i]@ by {
        assert(after[i] == more@[i]@);
        assert(before[i] == names@[i]@);
    }
    if name@.len() > 0 {
        assert(after[names@.len() as int] == more@[names@.len() as int]@);
    }
}

/// A name that leads out of its directory spoils the list: no accepted name holds a slash in either
/// direction. A list without a name is refused as such.
pub proof fn lemma_no_name_leads_out_of_its_directory(
    list: &str,
    names: Result<Vec<String>, PanoramaError>,
    which: int,
    place: int,
)
    requires
        call_ensures(panorama::panorama_names, (list,), names),
        names is Ok ==> 0 <= which < names->Ok_0@.len() && 0 <= place
            < names->Ok_0@[which]@.len(),
    ensures
        names is Ok ==> names->Ok_0@[which]@[place] != '/' && names->Ok_0@[which]@[place] != '\\',
        text::lines(list@).len() == 0 ==> names == Err::<Vec<String>, PanoramaError>(
            PanoramaError::NoNames,
        ),
{
    if let Ok(names) = names {
        let all = names@.map_values(|name: String| name@);
        assert(all[which] == names@[which]@);
        assert(panorama::is_plain(all[which]));
    }
}

/// One of the names is drawn, and none only where there is none.
pub proof fn lemma_one_of_the_names_is_drawn(names: Vec<String>, chosen: Option<&String>)
    requires
        call_ensures(panorama::choose_panorama, (&names,), chosen),
    ensures
        chosen is Some <==> names@.len() > 0,
        chosen is Some ==> exists|i: int| 0 <= i < names@.len() && #[trigger] names@[i] == *chosen->0,
{
}

/// The table that is found begins with the one line that marks it, stands in the bytes of the module
/// right before the text that follows it, holds 142 lines, none of them empty, and ends with the end
/// of a line.
pub proof fn lemma_a_splash_table_stands_between_its_marks(
    wasm: &[u8],
    table: String,
    text: &str,
    lines: Vec<Vec<char>>,
    place: int,
)
    requires
        call_ensures(splash::extract_splash_table, (wasm,), Ok::<String, SplashError>(table)),
        text@ == table@,
        call_ensures(text::split_lines, (text,), lines),
        0 <= place < 142,
    ensures
        lines@.len() == 142,
        lines@[place]@.len() > 0,
        table@.len() > 0 && table@[table@.len() - 1] == '\n',
        utf8::encode_utf8(table@).len() >= utf8::encode_utf8("Full of stars!\n"@).len(),
        exists|start: int| #[trigger]
            marked_at(wasm@, table@, start) && marked_at(wasm@, "Full of stars!\n"@, start)
                && marked_at(
                wasm@,
                "Splashes not included"@,
                start + utf8::encode_utf8(table@).len(),
            ),
{
    let mark = splash::start_marker();
    let next = splash::fallback_marker();
    splash::lemma_first_occurrence(wasm@, mark, 0);
    let start = splash::first_occurrence(wasm@, mark, 0)->0;
    splash::lemma_first_occurrence(wasm@, next, start + mark.len());
    let end = splash::first_occurrence(wasm@, next, start + mark.len() as int)->0;
    let bytes = wasm@.subrange(start, end);
    utf8::decode_utf8_encode_utf8(bytes);
    assert(utf8::encode_utf8(table@) == bytes);
    assert(marked_at(wasm@, table@, start));
    let all = text::texts(lines@);
    assert(all.len() == lines@.len());
    assert(all[place] == lines@[place]@);
}

/// Without the mark there is no table, and with two of them none is taken. Without the text behind
/// it there is none either.
pub proof fn lemma_what_a_splash_table_lacks(
    wasm: &[u8],
    table: Result<String, SplashError>,
    first: int,
    second: int,
)
    requires
        call_ensures(splash::extract_splash_table, (wasm,), table),
    ensures
        (forall|at: int| !marked_at(wasm@, "Full of stars!\n"@, at)) <==> table == Err::<
            String,
            SplashError,
        >(SplashError::MissingStartMarker),
        first < second && marked_at(wasm@, "Full of stars!\n"@, first) && marked_at(
            wasm@,
            "Full of stars!\n"@,
            second,
        ) ==> table == Err::<String, SplashError>(SplashError::AmbiguousStartMarker),
        (forall|at: int| !marked_at(wasm@, "Splashes not included"@, at)) ==> table is Err,
{
    let mark = splash::start_marker();
    let next = splash::fallback_marker();
    assert forall|at: int| marked_at(wasm@, "Full of stars!\n"@, at) == splash::occurs_at(
        wasm@,
        mark,
        at,
    ) by {
    }
    assert forall|at: int| marked_at(wasm@, "Splashes not included"@, at) == splash::occurs_at(
        wasm@,
        next,
        at,
    ) by {
    }
    splash::lemma_first_occurrence(wasm@, mark, 0);
    if let Some(start) = splash::first_occurrence(wasm@, mark, 0) {
        splash::lemma_first_occurrence(wasm@, mark, start + 1);
        splash::lemma_first_occurrence(wasm@, next, start + mark.len());
        assert(marked_at(wasm@, "Full of stars!\n"@, start));
        if first < second && marked_at(wasm@, "Full of stars!\n"@, first) && marked_at(
            wasm@,
            "Full of stars!\n"@,
            second,
        ) {
            assert(splash::occurs_at(wasm@, mark, first));
            assert(splash::occurs_at(wasm@, mark, second));
            assert(start <= first);
        }
        if splash::first_occurrence(wasm@, next, start + mark.len()) is Some {
            let end = splash::first_occurrence(wasm@, next, start + mark.len() as int)->0;
            assert(marked_at(wasm@, "Splashes not included"@, end));
        }
    } else {
        assert forall|at: int| !marked_at(wasm@, "Full of stars!\n"@, at) by {
            assert(0 <= at ==> !splash::occurs_at(wasm@, mark, at));
        }
    }
}

/// Whether a text stands at a place of some bytes.
pub open spec fn marked_at(bytes: Seq<u8>, text: Seq<char>, at: int) -> bool {
    0 <= at && at + utf8::encode_utf8(text).len() <= bytes.len() && bytes.subrange(
        at,
        at + utf8::encode_utf8(text).len(),
    ) == utf8::encode_utf8(text)
}

/// The splash of a number is the line of that number, and one that is drawn is one of the lines. Both
/// fail exactly where the table does, with the same error.
pub proof fn lemma_a_splash_is_a_line_of_the_table(
    wasm: &[u8],
    table: Result<String, SplashError>,
    text: &str,
    lines: Vec<Vec<char>>,
    number: usize,
    told: Result<String, SplashError>,
    drawn: Result<String, SplashError>,
)
    requires
        number < 142,
        call_ensures(splash::extract_splash_table, (wasm,), table),
        table is Ok ==> text@ == table->Ok_0@,
        call_ensures(text::split_lines, (text,), lines),
        call_ensures(splash::splash_at, (wasm, number), told),
        call_ensures(splash::pick_from_wasm, (wasm,), drawn),
    ensures
        table is Ok ==> told is Ok && told->Ok_0@ == lines@[number as int]@,
        table is Ok ==> drawn is Ok && exists|i: int|
            0 <= i < lines@.len() && (#[trigger] lines@[i])@ == drawn->Ok_0@,
        table is Err ==> told is Err && told->Err_0 == table->Err_0 && drawn is Err && drawn->Err_0
            == table->Err_0,
{
    if table is Ok {
        let all = text::texts(lines@);
        assert(all.len() == lines@.len());
        assert(all[number as int] == lines@[number as int]@);
        let i = choose|i: int| 0 <= i < all.len() && all[i] == drawn->Ok_0@;
        assert(all[i] == lines@[i]@);
    }
}

proof fn lemma_names_come_from_lines(lines: Seq<Seq<char>>, which: int) -> (line: int)
    requires
        0 <= which < panorama::names_of(lines).len(),
    ensures
        0 <= line < lines.len(),
        panorama::names_of(lines)[which] == text::trimmed(lines[line]),
    decreases lines.len(),
{
    let before = panorama::names_of(lines.drop_last());
    if which < before.len() {
        let line = lemma_names_come_from_lines(lines.drop_last(), which);
        assert(lines.drop_last()[line] == lines[line]);
        line
    } else {
        lines.len() - 1
    }
}

proof fn lemma_a_line_gives_a_name(lines: Seq<Seq<char>>, line: int)
    requires
        0 <= line < lines.len(),
        text::trimmed(lines[line]).len() > 0,
    ensures
        panorama::names_of(lines).len() > 0,
    decreases lines.len(),
{
    if line < lines.len() - 1 {
        assert(lines.drop_last()[line] == lines[line]);
        lemma_a_line_gives_a_name(lines.drop_last(), line);
    }
}

/// A list is refused only for a reason that is there: it names nothing, or some line of it, without
/// the white space around it, holds a slash.
pub proof fn lemma_why_a_list_of_panoramas_is_refused(
    list: &str,
    names: Result<Vec<String>, PanoramaError>,
    line: int,
)
    requires
        call_ensures(panorama::panorama_names, (list,), names),
        0 <= line < text::lines(list@).len(),
        text::trimmed(text::lines(list@)[line]).len() > 0,
    ensures
        names is Err ==> names->Err_0 is InvalidName,
        names is Err ==> exists|i: int, place: int|
            0 <= i < text::lines(list@).len() && 0 <= place < text::trimmed(
                text::lines(list@)[i],
            ).len() && (#[trigger] text::trimmed(text::lines(list@)[i])[place] == '/'
                || text::trimmed(text::lines(list@)[i])[place] == '\\'),
{
    let lines = text::lines(list@);
    lemma_a_line_gives_a_name(lines, line);
    if names is Err {
        let all = panorama::names_of(lines);
        let which = choose|i: int| 0 <= i < all.len() && !panorama::is_plain(#[trigger] all[i]);
        let i = lemma_names_come_from_lines(lines, which);
        let place = choose|place: int|
            0 <= place < all[which].len() && !(#[trigger] all[which][place] != '/'
                && all[which][place] != '\\');
        assert(text::trimmed(lines[i])[place] == all[which][place]);
    }
}

/// A table of 142 lines, none of them empty, that begins with its mark and ends with the end of a
/// line is found wherever it stands, provided its mark stands nowhere else and the text that follows
/// it does not stand in it.
pub proof fn lemma_a_sound_splash_table_is_found(
    wasm: &[u8],
    table: Seq<char>,
    start: int,
    found: Result<String, SplashError>,
)
    requires
        call_ensures(splash::extract_splash_table, (wasm,), found),
        0 <= start,
        marked_at(wasm@, table, start),
        marked_at(wasm@, "Full of stars!\n"@, start),
        forall|at: int| marked_at(wasm@, "Full of stars!\n"@, at) ==> at == start,
        utf8::encode_utf8(table).len() >= utf8::encode_utf8("Full of stars!\n"@).len(),
        marked_at(wasm@, "Splashes not included"@, start + utf8::encode_utf8(table).len()),
        forall|at: int|
            start <= at < start + utf8::encode_utf8(table).len() ==> !marked_at(
                wasm@,
                "Splashes not included"@,
                at,
            ),
        table.len() > 0 && table.last() == '\n',
        text::lines(table).len() == 142,
        forall|i: int| 0 <= i < 142 ==> (#[trigger] text::lines(table)[i]).len() > 0,
    ensures
        found is Ok && found->Ok_0@ == table,
{
    let mark = splash::start_marker();
    let next = splash::fallback_marker();
    let bytes = utf8::encode_utf8(table);
    assert forall|at: int| marked_at(wasm@, "Full of stars!\n"@, at) == splash::occurs_at(
        wasm@,
        mark,
        at,
    ) by {
    }
    assert forall|at: int| marked_at(wasm@, "Splashes not included"@, at) == splash::occurs_at(
        wasm@,
        next,
        at,
    ) by {
    }
    splash::lemma_first_occurrence(wasm@, mark, 0);
    assert(splash::occurs_at(wasm@, mark, start));
    let first = splash::first_occurrence(wasm@, mark, 0)->0;
    assert(splash::occurs_at(wasm@, mark, first));
    assert(marked_at(wasm@, "Full of stars!\n"@, first));
    assert(first == start);
    splash::lemma_first_occurrence(wasm@, mark, start + 1);
    if splash::first_occurrence(wasm@, mark, start + 1) is Some {
        let second = splash::first_occurrence(wasm@, mark, start + 1)->0;
        assert(marked_at(wasm@, "Full of stars!\n"@, second));
    }
    let end = start + bytes.len();
    splash::lemma_first_occurrence(wasm@, next, start + mark.len());
    assert(splash::occurs_at(wasm@, next, end));
    let found_end = splash::first_occurrence(wasm@, next, start + mark.len() as int)->0;
    assert(splash::occurs_at(wasm@, next, found_end));
    assert(marked_at(wasm@, "Splashes not included"@, found_end));
    assert(found_end == end);
    assert(wasm@.subrange(start, end) == bytes);
    utf8::encode_utf8_valid_utf8(table);
    utf8::encode_utf8_decode_utf8(table);
}

} // verus!

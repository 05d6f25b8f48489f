//! The canon that is compiled in: the sixty-six books of the Protestant
//! Bible in their usual order, with the chapters and verses of the King
//! James Version.
//!
//! Books that are numbered carry Roman numerals in their display names
//! ("I John"), because a name with a digit cannot stand in a written
//! reference; the forms with digits are kept as aliases, for lookups by
//! name.
use vstd::prelude::*;
use crate::canon::{Book, CanonError, CanonRegistry, clash, normalized, table_valid, well_formed_upto};

verus! {

/// Number of books of the standard canon.
pub const BOOK_COUNT: usize = 66;

pub const GENESIS: &'static str = "Genesis";

pub const GENESIS_ALIASES: [&'static str; 3] = [
    "Gen", "Ge", "Gn",
];

pub const GENESIS_VERSES: [u32; 50] = [
    31, 25, 24, 26, 32, 22, 24, 22, 29, 32, 32, 20, 18, 24, 21, 16, 27, 33, 38, 18, 34, 24, 20,
    67, 34, 35, 46, 22, 35, 43, 55, 32, 20, 31, 29, 43, 36, 30, 23, 23, 57, 38, 34, 34, 28, 34,
    31, 22, 33, 26,
];

pub const EXODUS: &'static str = "Exodus";

pub const EXODUS_ALIASES: [&'static str; 3] = [
    "Exod", "Exo", "Ex",
];

pub const EXODUS_VERSES: [u32; 40] = [
    22, 25, 22, 31, 23, 30, 25, 32, 35, 29, 10, 51, 22, 31, 27, 36, 16, 27, 25, 26, 36, 31, 33,
    18, 40, 37, 21, 43, 46, 38, 18, 35, 23, 35, 35, 38, 29, 31, 43, 38,
];

pub const LEVITICUS: &'static str = "Leviticus";

pub const LEVITICUS_ALIASES: [&'static str; 3] = [
    "Lev", "Le", "Lv",
];

pub const LEVITICUS_VERSES: [u32; 27] = [
    17, 16, 17, 35, 19, 30, 38, 36, 24, 20, 47, 8, 59, 57, 33, 34, 16, 30, 37, 27, 24, 33, 44,
    23, 55, 46, 34,
];

pub const NUMBERS: &'static str = "Numbers";

pub const NUMBERS_ALIASES: [&'static str; 4] = [
    "Num", "Nu", "Nm", "Nb",
];

pub const NUMBERS_VERSES: [u32; 36] = [
    54, 34, 51, 49, 31, 27, 89, 26, 23, 36, 35, 16, 33, 45, 41, 50, 13, 32, 22, 29, 35, 41, 30,
    25, 18, 65, 23, 31, 40, 16, 54, 42, 56, 29, 34, 13,
];

pub const DEUTERONOMY: &'static str = "Deuteronomy";

pub const DEUTERONOMY_ALIASES: [&'static str; 3] = [
    "Deut", "De", "Dt",
];

pub const DEUTERONOMY_VERSES: [u32; 34] = [
    46, 37, 29, 49, 33, 25, 26, 20, 29, 22, 32, 32, 18, 29, 23, 22, 20, 22, 21, 20, 23, 30, 25,
    22, 19, 19, 26, 68, 29, 20, 30, 52, 29, 12,
];

pub const JOSHUA: &'static str = "Joshua";

pub const JOSHUA_ALIASES: [&'static str; 3] = [
    "Josh", "Jos", "Jsh",
];

pub const JOSHUA_VERSES: [u32; 24] = [
    18, 24, 17, 24, 15, 27, 26, 35, 27, 43, 23, 24, 33, 15, 63, 10, 18, 28, 51, 9, 45, 34, 16,
    33,
];

pub const JUDGES: &'static str = "Judges";

pub const JUDGES_ALIASES: [&'static str; 4] = [
    "Judg", "Jdg", "Jg", "Jdgs",
];

pub const JUDGES_VERSES: [u32; 21] = [
    36, 23, 31, 24, 31, 40, 25, 35, 57, 18, 40, 15, 25, 20, 20, 31, 13, 31, 30, 48, 25,
];

pub const RUTH: &'static str = "Ruth";

pub const RUTH_ALIASES: [&'static str; 2] = [
    "Rth", "Ru",
];

pub const RUTH_VERSES: [u32; 4] = [
    22, 23, 18, 22,
];

pub const I_SAMUEL: &'static str = "I Samuel";

pub const I_SAMUEL_ALIASES: [&'static str; 9] = [
    "1 Samuel", "1 Sam", "1Sam", "1 Sa", "1Sa", "I Sam", "I Sa", "First Samuel", "1st Samuel",
];

pub const I_SAMUEL_VERSES: [u32; 31] = [
    28, 36, 21, 22, 12, 21, 17, 22, 27, 27, 15, 25, 23, 52, 35, 23, 58, 30, 24, 42, 15, 23, 29,
    22, 44, 25, 12, 25, 11, 31, 13,
];

pub const II_SAMUEL: &'static str = "II Samuel";

pub const II_SAMUEL_ALIASES: [&'static str; 9] = [
    "2 Samuel", "2 Sam", "2Sam", "2 Sa", "2Sa", "II Sam", "II Sa", "Second Samuel", "2nd Samuel",
];

pub const II_SAMUEL_VERSES: [u32; 24] = [
    27, 32, 39, 12, 25, 23, 29, 18, 13, 19, 27, 31, 39, 33, 37, 23, 29, 33, 43, 26, 22, 51, 39,
    25,
];

pub const I_KINGS: &'static str = "I Kings";

pub const I_KINGS_ALIASES: [&'static str; 9] = [
    "1 Kings", "1 Kgs", "1Kgs", "1 Ki", "1Ki", "I Kgs", "I Ki", "First Kings", "1st Kings",
];

pub const I_KINGS_VERSES: [u32; 22] = [
    53, 46, 28, 34, 18, 38, 51, 66, 28, 29, 43, 33, 34, 31, 34, 34, 24, 46, 21, 43, 29, 53,
];

pub const II_KINGS: &'static str = "II Kings";

pub const II_KINGS_ALIASES: [&'static str; 9] = [
    "2 Kings", "2 Kgs", "2Kgs", "2 Ki", "2Ki", "II Kgs", "II Ki", "Second Kings", "2nd Kings",
];

pub const II_KINGS_VERSES: [u32; 25] = [
    18, 25, 27, 44, 27, 33, 20, 29, 37, 36, 21, 21, 25, 29, 38, 20, 41, 37, 37, 21, 26, 20, 37,
    20, 30,
];

pub const I_CHRONICLES: &'static str = "I Chronicles";

pub const I_CHRONICLES_ALIASES: [&'static str; 12] = [
    "1 Chronicles", "1 Chron", "1Chron", "1 Chr", "1Chr", "1 Ch", "1Ch", "I Chron", "I Chr",
    "I Ch", "First Chronicles", "1st Chronicles",
];

pub const I_CHRONICLES_VERSES: [u32; 29] = [
    54, 55, 24, 43, 26, 81, 40, 40, 44, 14, 47, 40, 14, 17, 29, 43, 27, 17, 19, 8, 30, 19, 32,
    31, 31, 32, 34, 21, 30,
];

pub const II_CHRONICLES: &'static str = "II Chronicles";

pub const II_CHRONICLES_ALIASES: [&'static str; 12] = [
    "2 Chronicles", "2 Chron", "2Chron", "2 Chr", "2Chr", "2 Ch", "2Ch", "II Chron", "II Chr",
    "II Ch", "Second Chronicles", "2nd Chronicles",
];

pub const II_CHRONICLES_VERSES: [u32; 36] = [
    17, 18, 17, 22, 14, 42, 22, 18, 31, 19, 23, 16, 22, 15, 19, 14, 19, 34, 11, 37, 20, 12, 21,
    27, 28, 23, 9, 27, 36, 27, 21, 33, 25, 33, 27, 23,
];

pub const EZRA: &'static str = "Ezra";

pub const EZRA_ALIASES: [&'static str; 1] = [
    "Ezr",
];

pub const EZRA_VERSES: [u32; 10] = [
    11, 70, 13, 24, 17, 22, 28, 36, 15, 44,
];

pub const NEHEMIAH: &'static str = "Nehemiah";

pub const NEHEMIAH_ALIASES: [&'static str; 2] = [
    "Neh", "Ne",
];

pub const NEHEMIAH_VERSES: [u32; 13] = [
    11, 20, 32, 23, 19, 19, 73, 18, 38, 39, 36, 47, 31,
];

pub const ESTHER: &'static str = "Esther";

pub const ESTHER_ALIASES: [&'static str; 3] = [
    "Esth", "Est", "Es",
];

pub const ESTHER_VERSES: [u32; 10] = [
    22, 23, 15, 17, 14, 14, 10, 17, 32, 3,
];

pub const JOB: &'static str = "Job";

pub const JOB_ALIASES: [&'static str; 1] = [
    "Jb",
];

pub const JOB_VERSES: [u32; 42] = [
    22, 13, 26, 21, 27, 30, 21, 22, 35, 22, 20, 25, 28, 22, 35, 22, 16, 21, 29, 29, 34, 30, 17,
    25, 6, 14, 23, 28, 25, 31, 40, 22, 33, 37, 16, 33, 24, 41, 30, 24, 34, 17,
];

pub const PSALMS: &'static str = "Psalms";

pub const PSALMS_ALIASES: [&'static str; 4] = [
    "Psalm", "Psa", "Ps", "Pss",
];

pub const PSALMS_VERSES: [u32; 150] = [
    6, 12, 8, 8, 12, 10, 17, 9, 20, 18, 7, 8, 6, 7, 5, 11, 15, 50, 14, 9, 13, 31, 6, 10, 22, 12,
    14, 9, 11, 12, 24, 11, 22, 22, 28, 12, 40, 22, 13, 17, 13, 11, 5, 26, 17, 11, 9, 14, 20, 23,
    19, 9, 6, 7, 23, 13, 11, 11, 17, 12, 8, 12, 11, 10, 13, 20, 7, 35, 36, 5, 24, 20, 28, 23,
    10, 12, 20, 72, 13, 19, 16, 8, 18, 12, 13, 17, 7, 18, 52, 17, 16, 15, 5, 23, 11, 13, 12, 9,
    9, 5, 8, 28, 22, 35, 45, 48, 43, 13, 31, 7, 10, 10, 9, 8, 18, 19, 2, 29, 176, 7, 8, 9, 4, 8,
    5, 6, 5, 6, 8, 8, 3, 18, 3, 3, 21, 26, 9, 8, 24, 13, 10, 7, 12, 15, 21, 10, 20, 14, 9, 6,
];

pub const PROVERBS: &'static str = "Proverbs";

pub const PROVERBS_ALIASES: [&'static str; 4] = [
    "Prov", "Pro", "Pr", "Prv",
];

pub const PROVERBS_VERSES: [u32; 31] = [
    33, 22, 35, 27, 23, 35, 27, 36, 18, 32, 31, 28, 25, 35, 33, 33, 28, 24, 29, 30, 31, 29, 35,
    34, 28, 28, 27, 28, 27, 33, 31,
];

pub const ECCLESIASTES: &'static str = "Ecclesiastes";

pub const ECCLESIASTES_ALIASES: [&'static str; 6] = [
    "Eccles", "Eccl", "Ecc", "Ec", "Qoheleth", "Qoh",
];

pub const ECCLESIASTES_VERSES: [u32; 12] = [
    18, 26, 22, 16, 20, 12, 29, 17, 18, 20, 10, 14,
];

pub const SONG_OF_SOLOMON: &'static str = "Song of Solomon";

pub const SONG_OF_SOLOMON_ALIASES: [&'static str; 6] = [
    "Song of Songs", "Song", "Canticles", "Cant", "SoS", "SS",
];

pub const SONG_OF_SOLOMON_VERSES: [u32; 8] = [
    17, 17, 11, 16, 16, 13, 13, 14,
];

pub const ISAIAH: &'static str = "Isaiah";

pub const ISAIAH_ALIASES: [&'static str; 2] = [
    "Isa", "Is",
];

pub const ISAIAH_VERSES: [u32; 66] = [
    31, 22, 26, 6, 30, 13, 25, 22, 21, 34, 16, 6, 22, 32, 9, 14, 14, 7, 25, 6, 17, 25, 18, 23,
    12, 21, 13, 29, 24, 33, 9, 20, 24, 17, 10, 22, 38, 22, 8, 31, 29, 25, 28, 28, 25, 13, 15,
    22, 26, 11, 23, 15, 12, 17, 13, 12, 21, 14, 21, 22, 11, 12, 19, 12, 25, 24,
];

pub const JEREMIAH: &'static str = "Jeremiah";

pub const JEREMIAH_ALIASES: [&'static str; 3] = [
    "Jer", "Je", "Jr",
];

pub const JEREMIAH_VERSES: [u32; 52] = [
    19, 37, 25, 31, 31, 30, 34, 22, 26, 25, 23, 17, 27, 22, 21, 21, 27, 23, 15, 18, 14, 30, 40,
    10, 38, 24, 22, 17, 32, 24, 40, 44, 26, 22, 19, 32, 21, 28, 18, 16, 18, 22, 13, 30, 5, 28,
    7, 47, 39, 46, 64, 34,
];

pub const LAMENTATIONS: &'static str = "Lamentations";

pub const LAMENTATIONS_ALIASES: [&'static str; 2] = [
    "Lam", "La",
];

pub const LAMENTATIONS_VERSES: [u32; 5] = [
    22, 22, 66, 22, 22,
];

pub const EZEKIEL: &'static str = "Ezekiel";

pub const EZEKIEL_ALIASES: [&'static str; 3] = [
    "Ezek", "Eze", "Ezk",
];

pub const EZEKIEL_VERSES: [u32; 48] = [
    28, 10, 27, 17, 17, 14, 27, 18, 11, 22, 25, 28, 23, 23, 8, 63, 24, 32, 14, 49, 32, 31, 49,
    27, 17, 21, 36, 26, 21, 26, 18, 32, 33, 31, 15, 38, 28, 23, 29, 49, 26, 20, 27, 31, 25, 24,
    23, 35,
];

pub const DANIEL: &'static str = "Daniel";

pub const DANIEL_ALIASES: [&'static str; 3] = [
    "Dan", "Da", "Dn",
];

pub const DANIEL_VERSES: [u32; 12] = [
    21, 49, 30, 37, 31, 28, 28, 27, 27, 21, 45, 13,
];

pub const HOSEA: &'static str = "Hosea";

pub const HOSEA_ALIASES: [&'static str; 2] = [
    "Hos", "Ho",
];

pub const HOSEA_VERSES: [u32; 14] = [
    11, 23, 5, 19, 15, 11, 16, 14, 17, 15, 12, 14, 16, 9,
];

pub const JOEL: &'static str = "Joel";

pub const JOEL_ALIASES: [&'static str; 2] = [
    "Joe", "Jl",
];

pub const JOEL_VERSES: [u32; 3] = [
    20, 32, 21,
];

pub const AMOS: &'static str = "Amos";

pub const AMOS_ALIASES: [&'static str; 1] = [
    "Am",
];

pub const AMOS_VERSES: [u32; 9] = [
    15, 16, 15, 13, 27, 14, 17, 14, 15,
];

pub const OBADIAH: &'static str = "Obadiah";

pub const OBADIAH_ALIASES: [&'static str; 3] = [
    "Obad", "Oba", "Ob",
];

pub const OBADIAH_VERSES: [u32; 1] = [
    21,
];

pub const JONAH: &'static str = "Jonah";

pub const JONAH_ALIASES: [&'static str; 2] = [
    "Jon", "Jnh",
];

pub const JONAH_VERSES: [u32; 4] = [
    17, 10, 10, 11,
];

pub const MICAH: &'static str = "Micah";

pub const MICAH_ALIASES: [&'static str; 2] = [
    "Mic", "Mc",
];

pub const MICAH_VERSES: [u32; 7] = [
    16, 13, 12, 13, 15, 16, 20,
];

pub const NAHUM: &'static str = "Nahum";

pub const NAHUM_ALIASES: [&'static str; 2] = [
    "Nah", "Na",
];

pub const NAHUM_VERSES: [u32; 3] = [
    15, 13, 19,
];

pub const HABAKKUK: &'static str = "Habakkuk";

pub const HABAKKUK_ALIASES: [&'static str; 2] = [
    "Hab", "Hb",
];

pub const HABAKKUK_VERSES: [u32; 3] = [
    17, 20, 19,
];

pub const ZEPHANIAH: &'static str = "Zephaniah";

pub const ZEPHANIAH_ALIASES: [&'static str; 3] = [
    "Zeph", "Zep", "Zp",
];

pub const ZEPHANIAH_VERSES: [u32; 3] = [
    18, 15, 20,
];

pub const HAGGAI: &'static str = "Haggai";

pub const HAGGAI_ALIASES: [&'static str; 2] = [
    "Hag", "Hg",
];

pub const HAGGAI_VERSES: [u32; 2] = [
    15, 23,
];

pub const ZECHARIAH: &'static str = "Zechariah";

pub const ZECHARIAH_ALIASES: [&'static str; 3] = [
    "Zech", "Zec", "Zc",
];

pub const ZECHARIAH_VERSES: [u32; 14] = [
    21, 13, 10, 14, 11, 15, 14, 23, 17, 12, 17, 14, 9, 21,
];

pub const MALACHI: &'static str = "Malachi";

pub const MALACHI_ALIASES: [&'static str; 2] = [
    "Mal", "Ml",
];

pub const MALACHI_VERSES: [u32; 4] = [
    14, 17, 18, 6,
];

pub const MATTHEW: &'static str = "Matthew";

pub const MATTHEW_ALIASES: [&'static str; 3] = [
    "Matt", "Mat", "Mt",
];

pub const MATTHEW_VERSES: [u32; 28] = [
    25, 23, 17, 25, 48, 34, 29, 34, 38, 42, 30, 50, 58, 36, 39, 28, 27, 35, 30, 34, 46, 46, 39,
    51, 46, 75, 66, 20,
];

pub const MARK: &'static str = "Mark";

pub const MARK_ALIASES: [&'static str; 3] = [
    "Mrk", "Mk", "Mr",
];

pub const MARK_VERSES: [u32; 16] = [
    45, 28, 35, 41, 43, 56, 37, 38, 50, 52, 33, 44, 37, 72, 47, 20,
];

pub const LUKE: &'static str = "Luke";

pub const LUKE_ALIASES: [&'static str; 2] = [
    "Luk", "Lk",
];

pub const LUKE_VERSES: [u32; 24] = [
    80, 52, 38, 44, 39, 49, 50, 56, 62, 42, 54, 59, 35, 35, 32, 31, 37, 43, 48, 47, 38, 71, 56,
    53,
];

pub const JOHN: &'static str = "John";

pub const JOHN_ALIASES: [&'static str; 3] = [
    "Joh", "Jhn", "Jn",
];

pub const JOHN_VERSES: [u32; 21] = [
    51, 25, 36, 54, 47, 71, 53, 59, 41, 42, 57, 50, 38, 31, 27, 33, 26, 40, 42, 31, 25,
];

pub const ACTS: &'static str = "Acts";

pub const ACTS_ALIASES: [&'static str; 2] = [
    "Act", "Ac",
];

pub const ACTS_VERSES: [u32; 28] = [
    26, 47, 26, 37, 42, 15, 60, 40, 43, 48, 30, 25, 52, 28, 41, 40, 34, 28, 41, 38, 40, 30, 35,
    27, 27, 32, 44, 31,
];

pub const ROMANS: &'static str = "Romans";

pub const ROMANS_ALIASES: [&'static str; 3] = [
    "Rom", "Ro", "Rm",
];

pub const ROMANS_VERSES: [u32; 16] = [
    32, 29, 31, 25, 21, 23, 25, 39, 33, 21, 36, 21, 14, 23, 33, 27,
];

pub const I_CORINTHIANS: &'static str = "I Corinthians";

pub const I_CORINTHIANS_ALIASES: [&'static str; 9] = [
    "1 Corinthians", "1 Cor", "1Cor", "1 Co", "1Co", "I Cor", "I Co", "First Corinthians",
    "1st Corinthians",
];

pub const I_CORINTHIANS_VERSES: [u32; 16] = [
    31, 16, 23, 21, 13, 20, 40, 13, 27, 33, 34, 31, 13, 40, 58, 24,
];

pub const II_CORINTHIANS: &'static str = "II Corinthians";

pub const II_CORINTHIANS_ALIASES: [&'static str; 9] = [
    "2 Corinthians", "2 Cor", "2Cor", "2 Co", "2Co", "II Cor", "II Co", "Second Corinthians",
    "2nd Corinthians",
];

pub const II_CORINTHIANS_VERSES: [u32; 13] = [
    24, 17, 18, 18, 21, 18, 16, 24, 15, 18, 33, 21, 14,
];

pub const GALATIANS: &'static str = "Galatians";

pub const GALATIANS_ALIASES: [&'static str; 2] = [
    "Gal", "Ga",
];

pub const GALATIANS_VERSES: [u32; 6] = [
    24, 21, 29, 31, 26, 18,
];

pub const EPHESIANS: &'static str = "Ephesians";

pub const EPHESIANS_ALIASES: [&'static str; 2] = [
    "Eph", "Ephes",
];

pub const EPHESIANS_VERSES: [u32; 6] = [
    23, 22, 21, 32, 33, 24,
];

pub const PHILIPPIANS: &'static str = "Philippians";

pub const PHILIPPIANS_ALIASES: [&'static str; 3] = [
    "Phil", "Php", "Pp",
];

pub const PHILIPPIANS_VERSES: [u32; 4] = [
    30, 30, 21, 23,
];

pub const COLOSSIANS: &'static str = "Colossians";

pub const COLOSSIANS_ALIASES: [&'static str; 2] = [
    "Col", "Co",
];

pub const COLOSSIANS_VERSES: [u32; 4] = [
    29, 23, 25, 18,
];

pub const I_THESSALONIANS: &'static str = "I Thessalonians";

pub const I_THESSALONIANS_ALIASES: [&'static str; 11] = [
    "1 Thessalonians", "1 Thess", "1Thess", "1 Thes", "1 Th", "1Th", "I Thess", "I Thes", "I Th",
    "First Thessalonians", "1st Thessalonians",
];

pub const I_THESSALONIANS_VERSES: [u32; 5] = [
    10, 20, 13, 18, 28,
];

pub const II_THESSALONIANS: &'static str = "II Thessalonians";

pub const II_THESSALONIANS_ALIASES: [&'static str; 11] = [
    "2 Thessalonians", "2 Thess", "2Thess", "2 Thes", "2 Th", "2Th", "II Thess", "II Thes",
    "II Th", "Second Thessalonians", "2nd Thessalonians",
];

pub const II_THESSALONIANS_VERSES: [u32; 3] = [
    12, 17, 18,
];

pub const I_TIMOTHY: &'static str = "I Timothy";

pub const I_TIMOTHY_ALIASES: [&'static str; 9] = [
    "1 Timothy", "1 Tim", "1Tim", "1 Ti", "1Ti", "I Tim", "I Ti", "First Timothy", "1st Timothy",
];

pub const I_TIMOTHY_VERSES: [u32; 6] = [
    20, 15, 16, 16, 25, 21,
];

pub const II_TIMOTHY: &'static str = "II Timothy";

pub const II_TIMOTHY_ALIASES: [&'static str; 9] = [
    "2 Timothy", "2 Tim", "2Tim", "2 Ti", "2Ti", "II Tim", "II Ti", "Second Timothy",
    "2nd Timothy",
];

pub const II_TIMOTHY_VERSES: [u32; 4] = [
    18, 26, 17, 22,
];

pub const TITUS: &'static str = "Titus";

pub const TITUS_ALIASES: [&'static str; 2] = [
    "Tit", "Ti",
];

pub const TITUS_VERSES: [u32; 3] = [
    16, 15, 15,
];

pub const PHILEMON: &'static str = "Philemon";

pub const PHILEMON_ALIASES: [&'static str; 4] = [
    "Philem", "Phlm", "Phm", "Pm",
];

pub const PHILEMON_VERSES: [u32; 1] = [
    25,
];

pub const HEBREWS: &'static str = "Hebrews";

pub const HEBREWS_ALIASES: [&'static str; 2] = [
    "Heb", "He",
];

pub const HEBREWS_VERSES: [u32; 13] = [
    14, 18, 19, 16, 14, 20, 28, 13, 28, 39, 40, 29, 25,
];

pub const JAMES: &'static str = "James";

pub const JAMES_ALIASES: [&'static str; 2] = [
    "Jas", "Jm",
];

pub const JAMES_VERSES: [u32; 5] = [
    27, 26, 18, 17, 20,
];

pub const I_PETER: &'static str = "I Peter";

pub const I_PETER_ALIASES: [&'static str; 12] = [
    "1 Peter", "1 Pet", "1Pet", "1 Pe", "1Pe", "1 Pt", "1Pt", "I Pet", "I Pe", "I Pt",
    "First Peter", "1st Peter",
];

pub const I_PETER_VERSES: [u32; 5] = [
    25, 25, 22, 19, 14,
];

pub const II_PETER: &'static str = "II Peter";

pub const II_PETER_ALIASES: [&'static str; 12] = [
    "2 Peter", "2 Pet", "2Pet", "2 Pe", "2Pe", "2 Pt", "2Pt", "II Pet", "II Pe", "II Pt",
    "Second Peter", "2nd Peter",
];

pub const II_PETER_VERSES: [u32; 3] = [
    21, 22, 18,
];

pub const I_JOHN: &'static str = "I John";

pub const I_JOHN_ALIASES: [&'static str; 11] = [
    "1 John", "1 Jn", "1Jn", "1 Jhn", "1 Joh", "1Jo", "I Jn", "I Jhn", "I Joh", "First John",
    "1st John",
];

pub const I_JOHN_VERSES: [u32; 5] = [
    10, 29, 24, 21, 21,
];

pub const II_JOHN: &'static str = "II John";

pub const II_JOHN_ALIASES: [&'static str; 11] = [
    "2 John", "2 Jn", "2Jn", "2 Jhn", "2 Joh", "2Jo", "II Jn", "II Jhn", "II Joh", "Second John",
    "2nd John",
];

pub const II_JOHN_VERSES: [u32; 1] = [
    13,
];

pub const III_JOHN: &'static str = "III John";

pub const III_JOHN_ALIASES: [&'static str; 11] = [
    "3 John", "3 Jn", "3Jn", "3 Jhn", "3 Joh", "3Jo", "III Jn", "III Jhn", "III Joh",
    "Third John", "3rd John",
];

pub const III_JOHN_VERSES: [u32; 1] = [
    14,
];

pub const JUDE: &'static str = "Jude";

pub const JUDE_ALIASES: [&'static str; 2] = [
    "Jde", "Jd",
];

pub const JUDE_VERSES: [u32; 1] = [
    25,
];

pub const REVELATION: &'static str = "Revelation";

pub const REVELATION_ALIASES: [&'static str; 6] = [
    "Rev", "Re", "Rv", "Revelations", "Apocalypse", "Apoc",
];

pub const REVELATION_VERSES: [u32; 22] = [
    20, 29, 22, 11, 14, 17, 17, 13, 21, 11, 19, 17, 18, 20, 8, 21, 18, 24, 21, 15, 27, 21,
];

/// A row of the table: what a book is called and how it is divided.
pub struct Row {
    pub name: Seq<char>,
    pub aliases: Seq<Seq<char>>,
    pub verse_counts: Seq<u32>,
}

/// The texts of a list of names.
pub open spec fn names(list: Seq<&'static str>) -> Seq<Seq<char>> {
    Seq::new(list.len(), |k: int| list[k]@)
}

/// The texts of a list of owned names.
pub open spec fn owned_names(list: Seq<String>) -> Seq<Seq<char>> {
    Seq::new(list.len(), |k: int| list[k]@)
}

pub open spec fn row(name: &'static str, aliases: Seq<&'static str>, verse_counts: Seq<u32>) -> Row {
    Row { name: name@, aliases: names(aliases), verse_counts }
}

/// The row of the book with ordinal `i` in the standard canon.
pub open spec fn standard_row(i: int) -> Row {
    if i == 0 {
        row(GENESIS, GENESIS_ALIASES@, GENESIS_VERSES@)
    } else if i == 1 {
        row(EXODUS, EXODUS_ALIASES@, EXODUS_VERSES@)
    } else if i == 2 {
        row(LEVITICUS, LEVITICUS_ALIASES@, LEVITICUS_VERSES@)
    } else if i == 3 {
        row(NUMBERS, NUMBERS_ALIASES@, NUMBERS_VERSES@)
    } else if i == 4 {
        row(DEUTERONOMY, DEUTERONOMY_ALIASES@, DEUTERONOMY_VERSES@)
    } else if i == 5 {
        row(JOSHUA, JOSHUA_ALIASES@, JOSHUA_VERSES@)
    } else if i == 6 {
        row(JUDGES, JUDGES_ALIASES@, JUDGES_VERSES@)
    } else if i == 7 {
        row(RUTH, RUTH_ALIASES@, RUTH_VERSES@)
    } else if i == 8 {
        row(I_SAMUEL, I_SAMUEL_ALIASES@, I_SAMUEL_VERSES@)
    } else if i == 9 {
        row(II_SAMUEL, II_SAMUEL_ALIASES@, II_SAMUEL_VERSES@)
    } else if i == 10 {
        row(I_KINGS, I_KINGS_ALIASES@, I_KINGS_VERSES@)
    } else if i == 11 {
        row(II_KINGS, II_KINGS_ALIASES@, II_KINGS_VERSES@)
    } else if i == 12 {
        row(I_CHRONICLES, I_CHRONICLES_ALIASES@, I_CHRONICLES_VERSES@)
    } else if i == 13 {
        row(II_CHRONICLES, II_CHRONICLES_ALIASES@, II_CHRONICLES_VERSES@)
    } else if i == 14 {
        row(EZRA, EZRA_ALIASES@, EZRA_VERSES@)
    } else if i == 15 {
        row(NEHEMIAH, NEHEMIAH_ALIASES@, NEHEMIAH_VERSES@)
    } else if i == 16 {
        row(ESTHER, ESTHER_ALIASES@, ESTHER_VERSES@)
    } else if i == 17 {
        row(JOB, JOB_ALIASES@, JOB_VERSES@)
    } else if i == 18 {
        row(PSALMS, PSALMS_ALIASES@, PSALMS_VERSES@)
    } else if i == 19 {
        row(PROVERBS, PROVERBS_ALIASES@, PROVERBS_VERSES@)
    } else if i == 20 {
        row(ECCLESIASTES, ECCLESIASTES_ALIASES@, ECCLESIASTES_VERSES@)
    } else if i == 21 {
        row(SONG_OF_SOLOMON, SONG_OF_SOLOMON_ALIASES@, SONG_OF_SOLOMON_VERSES@)
    } else if i == 22 {
        row(ISAIAH, ISAIAH_ALIASES@, ISAIAH_VERSES@)
    } else if i == 23 {
        row(JEREMIAH, JEREMIAH_ALIASES@, JEREMIAH_VERSES@)
    } else if i == 24 {
        row(LAMENTATIONS, LAMENTATIONS_ALIASES@, LAMENTATIONS_VERSES@)
    } else if i == 25 {
        row(EZEKIEL, EZEKIEL_ALIASES@, EZEKIEL_VERSES@)
    } else if i == 26 {
        row(DANIEL, DANIEL_ALIASES@, DANIEL_VERSES@)
    } else if i == 27 {
        row(HOSEA, HOSEA_ALIASES@, HOSEA_VERSES@)
    } else if i == 28 {
        row(JOEL, JOEL_ALIASES@, JOEL_VERSES@)
    } else if i == 29 {
        row(AMOS, AMOS_ALIASES@, AMOS_VERSES@)
    } else if i == 30 {
        row(OBADIAH, OBADIAH_ALIASES@, OBADIAH_VERSES@)
    } else if i == 31 {
        row(JONAH, JONAH_ALIASES@, JONAH_VERSES@)
    } else if i == 32 {
        row(MICAH, MICAH_ALIASES@, MICAH_VERSES@)
    } else if i == 33 {
        row(NAHUM, NAHUM_ALIASES@, NAHUM_VERSES@)
    } else if i == 34 {
        row(HABAKKUK, HABAKKUK_ALIASES@, HABAKKUK_VERSES@)
    } else if i == 35 {
        row(ZEPHANIAH, ZEPHANIAH_ALIASES@, ZEPHANIAH_VERSES@)
    } else if i == 36 {
        row(HAGGAI, HAGGAI_ALIASES@, HAGGAI_VERSES@)
    } else if i == 37 {
        row(ZECHARIAH, ZECHARIAH_ALIASES@, ZECHARIAH_VERSES@)
    } else if i == 38 {
        row(MALACHI, MALACHI_ALIASES@, MALACHI_VERSES@)
    } else if i == 39 {
        row(MATTHEW, MATTHEW_ALIASES@, MATTHEW_VERSES@)
    } else if i == 40 {
        row(MARK, MARK_ALIASES@, MARK_VERSES@)
    } else if i == 41 {
        row(LUKE, LUKE_ALIASES@, LUKE_VERSES@)
    } else if i == 42 {
        row(JOHN, JOHN_ALIASES@, JOHN_VERSES@)
    } else if i == 43 {
        row(ACTS, ACTS_ALIASES@, ACTS_VERSES@)
    } else if i == 44 {
        row(ROMANS, ROMANS_ALIASES@, ROMANS_VERSES@)
    } else if i == 45 {
        row(I_CORINTHIANS, I_CORINTHIANS_ALIASES@, I_CORINTHIANS_VERSES@)
    } else if i == 46 {
        row(II_CORINTHIANS, II_CORINTHIANS_ALIASES@, II_CORINTHIANS_VERSES@)
    } else if i == 47 {
        row(GALATIANS, GALATIANS_ALIASES@, GALATIANS_VERSES@)
    } else if i == 48 {
        row(EPHESIANS, EPHESIANS_ALIASES@, EPHESIANS_VERSES@)
    } else if i == 49 {
        row(PHILIPPIANS, PHILIPPIANS_ALIASES@, PHILIPPIANS_VERSES@)
    } else if i == 50 {
        row(COLOSSIANS, COLOSSIANS_ALIASES@, COLOSSIANS_VERSES@)
    } else if i == 51 {
        row(I_THESSALONIANS, I_THESSALONIANS_ALIASES@, I_THESSALONIANS_VERSES@)
    } else if i == 52 {
        row(II_THESSALONIANS, II_THESSALONIANS_ALIASES@, II_THESSALONIANS_VERSES@)
    } else if i == 53 {
        row(I_TIMOTHY, I_TIMOTHY_ALIASES@, I_TIMOTHY_VERSES@)
    } else if i == 54 {
        row(II_TIMOTHY, II_TIMOTHY_ALIASES@, II_TIMOTHY_VERSES@)
    } else if i == 55 {
        row(TITUS, TITUS_ALIASES@, TITUS_VERSES@)
    } else if i == 56 {
        row(PHILEMON, PHILEMON_ALIASES@, PHILEMON_VERSES@)
    } else if i == 57 {
        row(HEBREWS, HEBREWS_ALIASES@, HEBREWS_VERSES@)
    } else if i == 58 {
        row(JAMES, JAMES_ALIASES@, JAMES_VERSES@)
    } else if i == 59 {
        row(I_PETER, I_PETER_ALIASES@, I_PETER_VERSES@)
    } else if i == 60 {
        row(II_PETER, II_PETER_ALIASES@, II_PETER_VERSES@)
    } else if i == 61 {
        row(I_JOHN, I_JOHN_ALIASES@, I_JOHN_VERSES@)
    } else if i == 62 {
        row(II_JOHN, II_JOHN_ALIASES@, II_JOHN_VERSES@)
    } else if i == 63 {
        row(III_JOHN, III_JOHN_ALIASES@, III_JOHN_VERSES@)
    } else if i == 64 {
        row(JUDE, JUDE_ALIASES@, JUDE_VERSES@)
    } else {
        row(REVELATION, REVELATION_ALIASES@, REVELATION_VERSES@)
    }
}

/// Whether `book` is the book with ordinal `i` of the standard canon.
pub open spec fn is_standard(book: Book, i: int) -> bool {
    &&& book.ordinal == i
    &&& book.name@ == standard_row(i).name
    &&& owned_names(book.aliases@) == standard_row(i).aliases
    &&& book.verse_counts@ == standard_row(i).verse_counts
}

/// Whether the first `n` books are those of the standard canon.
pub open spec fn standard_upto(books: Seq<Book>, n: int) -> bool {
    forall|i: int| 0 <= i < n ==> is_standard(#[trigger] books[i], i)
}

/// The normalized forms of the names of a row: of its display name first,
/// then of its aliases.
pub open spec fn row_keys(r: Row) -> Seq<Seq<char>> {
    Seq::new(
        r.aliases.len() + 1,
        |k: int|
            normalized(
                if k == 0 {
                    r.name
                } else {
                    r.aliases[k - 1]
                },
            ),
    )
}

/// Whether two rows share a name, up to normalization.
pub open spec fn rows_clash(a: Row, b: Row) -> bool {
    exists|k: int| 0 <= k < row_keys(b).len() && row_keys(a).contains(#[trigger] row_keys(b)[k])
}

/// Whether no two books of the standard canon share a name.
pub open spec fn standard_names_distinct() -> bool {
    forall|i: int, j: int|
        0 <= i < j < BOOK_COUNT ==> !rows_clash(#[trigger] standard_row(i), #[trigger] standard_row(j))
}

/// Books of the standard canon share a name exactly if their rows do.
proof fn lemma_clash_of_rows(a: Book, i: int, b: Book, j: int)
    requires
        is_standard(a, i),
        is_standard(b, j),
    ensures
        clash(a, b) == rows_clash(standard_row(i), standard_row(j)),
{
    assert(a.norm_keys() =~= row_keys(standard_row(i))) by {
        assert forall|k: int| 0 <= k < a.norm_keys().len() implies a.norm_keys()[k] == row_keys(
            standard_row(i),
        )[k] by {
            if k > 0 {
                assert(owned_names(a.aliases@)[k - 1] == a.aliases@[k - 1]@);
            }
        }
        assert(owned_names(a.aliases@).len() == a.aliases@.len());
    }
    assert(b.norm_keys() =~= row_keys(standard_row(j))) by {
        assert forall|k: int| 0 <= k < b.norm_keys().len() implies b.norm_keys()[k] == row_keys(
            standard_row(j),
        )[k] by {
            if k > 0 {
                assert(owned_names(b.aliases@)[k - 1] == b.aliases@[k - 1]@);
            }
        }
        assert(owned_names(b.aliases@).len() == b.aliases@.len());
    }
    assert(b.key_count() == b.norm_keys().len());
}

/// A table of the standard books is a canon exactly if no two rows share
/// a name.
proof fn lemma_valid_if_distinct(books: Seq<Book>)
    requires
        books.len() == BOOK_COUNT,
        standard_upto(books, BOOK_COUNT as int),
        well_formed_upto(books, BOOK_COUNT as int),
    ensures
        table_valid(books) == standard_names_distinct(),
{
    if table_valid(books) {
        assert forall|i: int, j: int| 0 <= i < j < BOOK_COUNT implies !rows_clash(
            #[trigger] standard_row(i),
            #[trigger] standard_row(j),
        ) by {
            lemma_clash_of_rows(books[i], i, books[j], j);
            assert(!clash(books[i], books[j]));
        }
    }
    if standard_names_distinct() {
        assert forall|i: int, j: int| 0 <= i < j < books.len() implies !clash(
            #[trigger] books[i],
            #[trigger] books[j],
        ) by {
            lemma_clash_of_rows(books[i], i, books[j], j);
            assert(!rows_clash(standard_row(i), standard_row(j)));
        }
    }
}

/// Owned copies of a list of names.
fn owned(list: &[&'static str]) -> (r: Vec<String>)
    ensures
        owned_names(r@) == names(list@),
{
    let mut out: Vec<String> = Vec::new();
    let mut k: usize = 0;
    while k < list.len()
        invariant
            k <= list.len(),
            out@.len() == k,
            forall|j: int| 0 <= j < k ==> (#[trigger] out@[j])@ == list@[j]@,
        decreases list.len() - k,
    {
        out.push(list[k].to_string());
        k += 1;
    }
    assert(owned_names(out@) =~= names(list@));
    out
}

/// A vector of the numbers of a list.
fn numbers(list: &[u32]) -> (r: Vec<u32>)
    ensures
        r@ == list@,
{
    let mut out: Vec<u32> = Vec::new();
    let mut k: usize = 0;
    while k < list.len()
        invariant
            k <= list.len(),
            out@ == list@.take(k as int),
        decreases list.len() - k,
    {
        out.push(list[k]);
        k += 1;
        assert(out@ =~= list@.take(k as int));
    }
    assert(list@.take(list.len() as int) =~= list@);
    out
}

/// Puts one more book at the end of the table.
fn shelve(books: &mut Vec<Book>, name: &'static str, aliases: &[&'static str], verse_counts: &[u32])
    requires
        well_formed_upto(old(books)@, old(books)@.len() as int),
        1 <= verse_counts@.len() <= u32::MAX,
        forall|c: int| 0 <= c < verse_counts@.len() ==> #[trigger] verse_counts@[c] >= 1,
    ensures
        final(books)@.len() == old(books)@.len() + 1,
        well_formed_upto(final(books)@, final(books)@.len() as int),
        forall|i: int| 0 <= i < old(books)@.len() ==> final(books)@[i] == old(books)@[i],
        final(books)@[old(books)@.len() as int].ordinal == old(books)@.len(),
        final(books)@[old(books)@.len() as int].name@ == name@,
        owned_names(final(books)@[old(books)@.len() as int].aliases@) == names(aliases@),
        final(books)@[old(books)@.len() as int].verse_counts@ == verse_counts@,
{
    let ordinal = books.len();
    let book = Book {
        ordinal,
        name: name.to_string(),
        aliases: owned(aliases),
        verse_counts: numbers(verse_counts),
    };
    books.push(book);
}

/// The five books of the law.
fn the_law(books: &mut Vec<Book>)
    requires
        old(books)@.len() == 0,
        well_formed_upto(old(books)@, 0),
        standard_upto(old(books)@, 0),
    ensures
        final(books)@.len() == 5,
        well_formed_upto(final(books)@, 5),
        standard_upto(final(books)@, 5),
{
    shelve(books, GENESIS, &GENESIS_ALIASES, &GENESIS_VERSES);
    shelve(books, EXODUS, &EXODUS_ALIASES, &EXODUS_VERSES);
    shelve(books, LEVITICUS, &LEVITICUS_ALIASES, &LEVITICUS_VERSES);
    shelve(books, NUMBERS, &NUMBERS_ALIASES, &NUMBERS_VERSES);
    shelve(books, DEUTERONOMY, &DEUTERONOMY_ALIASES, &DEUTERONOMY_VERSES);
}

/// From the conquest to the exile.
fn former_history(books: &mut Vec<Book>)
    requires
        old(books)@.len() == 5,
        well_formed_upto(old(books)@, 5),
        standard_upto(old(books)@, 5),
    ensures
        final(books)@.len() == 12,
        well_formed_upto(final(books)@, 12),
        standard_upto(final(books)@, 12),
{
    shelve(books, JOSHUA, &JOSHUA_ALIASES, &JOSHUA_VERSES);
    shelve(books, JUDGES, &JUDGES_ALIASES, &JUDGES_VERSES);
    shelve(books, RUTH, &RUTH_ALIASES, &RUTH_VERSES);
    shelve(books, I_SAMUEL, &I_SAMUEL_ALIASES, &I_SAMUEL_VERSES);
    shelve(books, II_SAMUEL, &II_SAMUEL_ALIASES, &II_SAMUEL_VERSES);
    shelve(books, I_KINGS, &I_KINGS_ALIASES, &I_KINGS_VERSES);
    shelve(books, II_KINGS, &II_KINGS_ALIASES, &II_KINGS_VERSES);
}

/// The chronicles and the return.
fn later_history(books: &mut Vec<Book>)
    requires
        old(books)@.len() == 12,
        well_formed_upto(old(books)@, 12),
        standard_upto(old(books)@, 12),
    ensures
        final(books)@.len() == 17,
        well_formed_upto(final(books)@, 17),
        standard_upto(final(books)@, 17),
{
    shelve(books, I_CHRONICLES, &I_CHRONICLES_ALIASES, &I_CHRONICLES_VERSES);
    shelve(books, II_CHRONICLES, &II_CHRONICLES_ALIASES, &II_CHRONICLES_VERSES);
    shelve(books, EZRA, &EZRA_ALIASES, &EZRA_VERSES);
    shelve(books, NEHEMIAH, &NEHEMIAH_ALIASES, &NEHEMIAH_VERSES);
    shelve(books, ESTHER, &ESTHER_ALIASES, &ESTHER_VERSES);
}

/// The books of poetry and wisdom.
fn poetry(books: &mut Vec<Book>)
    requires
        old(books)@.len() == 17,
        well_formed_upto(old(books)@, 17),
        standard_upto(old(books)@, 17),
    ensures
        final(books)@.len() == 22,
        well_formed_upto(final(books)@, 22),
        standard_upto(final(books)@, 22),
{
    shelve(books, JOB, &JOB_ALIASES, &JOB_VERSES);
    shelve(books, PSALMS, &PSALMS_ALIASES, &PSALMS_VERSES);
    shelve(books, PROVERBS, &PROVERBS_ALIASES, &PROVERBS_VERSES);
    shelve(books, ECCLESIASTES, &ECCLESIASTES_ALIASES, &ECCLESIASTES_VERSES);
    shelve(books, SONG_OF_SOLOMON, &SONG_OF_SOLOMON_ALIASES, &SONG_OF_SOLOMON_VERSES);
}

/// The longer prophets.
fn major_prophets(books: &mut Vec<Book>)
    requires
        old(books)@.len() == 22,
        well_formed_upto(old(books)@, 22),
        standard_upto(old(books)@, 22),
    ensures
        final(books)@.len() == 27,
        well_formed_upto(final(books)@, 27),
        standard_upto(final(books)@, 27),
{
    shelve(books, ISAIAH, &ISAIAH_ALIASES, &ISAIAH_VERSES);
    shelve(books, JEREMIAH, &JEREMIAH_ALIASES, &JEREMIAH_VERSES);
    shelve(books, LAMENTATIONS, &LAMENTATIONS_ALIASES, &LAMENTATIONS_VERSES);
    shelve(books, EZEKIEL, &EZEKIEL_ALIASES, &EZEKIEL_VERSES);
    shelve(books, DANIEL, &DANIEL_ALIASES, &DANIEL_VERSES);
}

/// The twelve, from Hosea to Micah.
fn minor_prophets_before(books: &mut Vec<Book>)
    requires
        old(books)@.len() == 27,
        well_formed_upto(old(books)@, 27),
        standard_upto(old(books)@, 27),
    ensures
        final(books)@.len() == 33,
        well_formed_upto(final(books)@, 33),
        standard_upto(final(books)@, 33),
{
    shelve(books, HOSEA, &HOSEA_ALIASES, &HOSEA_VERSES);
    shelve(books, JOEL, &JOEL_ALIASES, &JOEL_VERSES);
    shelve(books, AMOS, &AMOS_ALIASES, &AMOS_VERSES);
    shelve(books, OBADIAH, &OBADIAH_ALIASES, &OBADIAH_VERSES);
    shelve(books, JONAH, &JONAH_ALIASES, &JONAH_VERSES);
    shelve(books, MICAH, &MICAH_ALIASES, &MICAH_VERSES);
}

/// The twelve, from Nahum to Malachi.
fn minor_prophets_after(books: &mut Vec<Book>)
    requires
        old(books)@.len() == 33,
        well_formed_upto(old(books)@, 33),
        standard_upto(old(books)@, 33),
    ensures
        final(books)@.len() == 39,
        well_formed_upto(final(books)@, 39),
        standard_upto(final(books)@, 39),
{
    shelve(books, NAHUM, &NAHUM_ALIASES, &NAHUM_VERSES);
    shelve(books, HABAKKUK, &HABAKKUK_ALIASES, &HABAKKUK_VERSES);
    shelve(books, ZEPHANIAH, &ZEPHANIAH_ALIASES, &ZEPHANIAH_VERSES);
    shelve(books, HAGGAI, &HAGGAI_ALIASES, &HAGGAI_VERSES);
    shelve(books, ZECHARIAH, &ZECHARIAH_ALIASES, &ZECHARIAH_VERSES);
    shelve(books, MALACHI, &MALACHI_ALIASES, &MALACHI_VERSES);
}

/// The four gospels and the Acts.
fn gospels_and_acts(books: &mut Vec<Book>)
    requires
        old(books)@.len() == 39,
        well_formed_upto(old(books)@, 39),
        standard_upto(old(books)@, 39),
    ensures
        final(books)@.len() == 44,
        well_formed_upto(final(books)@, 44),
        standard_upto(final(books)@, 44),
{
    shelve(books, MATTHEW, &MATTHEW_ALIASES, &MATTHEW_VERSES);
    shelve(books, MARK, &MARK_ALIASES, &MARK_VERSES);
    shelve(books, LUKE, &LUKE_ALIASES, &LUKE_VERSES);
    shelve(books, JOHN, &JOHN_ALIASES, &JOHN_VERSES);
    shelve(books, ACTS, &ACTS_ALIASES, &ACTS_VERSES);
}

/// The letters of Paul to churches.
fn letters_to_churches(books: &mut Vec<Book>)
    requires
        old(books)@.len() == 44,
        well_formed_upto(old(books)@, 44),
        standard_upto(old(books)@, 44),
    ensures
        final(books)@.len() == 53,
        well_formed_upto(final(books)@, 53),
        standard_upto(final(books)@, 53),
{
    shelve(books, ROMANS, &ROMANS_ALIASES, &ROMANS_VERSES);
    shelve(books, I_CORINTHIANS, &I_CORINTHIANS_ALIASES, &I_CORINTHIANS_VERSES);
    shelve(books, II_CORINTHIANS, &II_CORINTHIANS_ALIASES, &II_CORINTHIANS_VERSES);
    shelve(books, GALATIANS, &GALATIANS_ALIASES, &GALATIANS_VERSES);
    shelve(books, EPHESIANS, &EPHESIANS_ALIASES, &EPHESIANS_VERSES);
    shelve(books, PHILIPPIANS, &PHILIPPIANS_ALIASES, &PHILIPPIANS_VERSES);
    shelve(books, COLOSSIANS, &COLOSSIANS_ALIASES, &COLOSSIANS_VERSES);
    shelve(books, I_THESSALONIANS, &I_THESSALONIANS_ALIASES, &I_THESSALONIANS_VERSES);
    shelve(books, II_THESSALONIANS, &II_THESSALONIANS_ALIASES, &II_THESSALONIANS_VERSES);
}

/// The letters of Paul to persons.
fn letters_to_persons(books: &mut Vec<Book>)
    requires
        old(books)@.len() == 53,
        well_formed_upto(old(books)@, 53),
        standard_upto(old(books)@, 53),
    ensures
        final(books)@.len() == 57,
        well_formed_upto(final(books)@, 57),
        standard_upto(final(books)@, 57),
{
    shelve(books, I_TIMOTHY, &I_TIMOTHY_ALIASES, &I_TIMOTHY_VERSES);
    shelve(books, II_TIMOTHY, &II_TIMOTHY_ALIASES, &II_TIMOTHY_VERSES);
    shelve(books, TITUS, &TITUS_ALIASES, &TITUS_VERSES);
    shelve(books, PHILEMON, &PHILEMON_ALIASES, &PHILEMON_VERSES);
}

/// Hebrews, the general letters and the Revelation.
fn general_letters(books: &mut Vec<Book>)
    requires
        old(books)@.len() == 57,
        well_formed_upto(old(books)@, 57),
        standard_upto(old(books)@, 57),
    ensures
        final(books)@.len() == 66,
        well_formed_upto(final(books)@, 66),
        standard_upto(final(books)@, 66),
{
    shelve(books, HEBREWS, &HEBREWS_ALIASES, &HEBREWS_VERSES);
    shelve(books, JAMES, &JAMES_ALIASES, &JAMES_VERSES);
    shelve(books, I_PETER, &I_PETER_ALIASES, &I_PETER_VERSES);
    shelve(books, II_PETER, &II_PETER_ALIASES, &II_PETER_VERSES);
    shelve(books, I_JOHN, &I_JOHN_ALIASES, &I_JOHN_VERSES);
    shelve(books, II_JOHN, &II_JOHN_ALIASES, &II_JOHN_VERSES);
    shelve(books, III_JOHN, &III_JOHN_ALIASES, &III_JOHN_VERSES);
    shelve(books, JUDE, &JUDE_ALIASES, &JUDE_VERSES);
    shelve(books, REVELATION, &REVELATION_ALIASES, &REVELATION_VERSES);
}

/// The table of the standard canon: its sixty-six books, each well
/// formed.
pub fn standard_books() -> (books: Vec<Book>)
    ensures
        books@.len() == BOOK_COUNT,
        standard_upto(books@, BOOK_COUNT as int),
        well_formed_upto(books@, BOOK_COUNT as int),
{
    let mut books: Vec<Book> = Vec::new();
    the_law(&mut books);
    former_history(&mut books);
    later_history(&mut books);
    poetry(&mut books);
    major_prophets(&mut books);
    minor_prophets_before(&mut books);
    minor_prophets_after(&mut books);
    gospels_and_acts(&mut books);
    letters_to_churches(&mut books);
    letters_to_persons(&mut books);
    general_letters(&mut books);
    books
}

/// The standard canon. Its books are well formed by construction; that no
/// two of them share a name is looked into when the registry is made. So
/// it is there exactly if the names of the table are distinct, and the
/// only failure there can be is a shared name.
pub fn standard_canon() -> (r: Result<CanonRegistry, CanonError>)
    ensures
        r is Ok <==> standard_names_distinct(),
        match r {
            Ok(canon) => {
                &&& canon.wf()
                &&& canon@.len() == BOOK_COUNT
                &&& standard_upto(canon@, BOOK_COUNT as int)
            },
            Err(e) => e is SharedName,
        },
{
    let books = standard_books();
    proof {
        lemma_valid_if_distinct(books@);
    }
    CanonRegistry::new(books)
}

} // verus!
